//! The rules for timestamp tokens.
//!
//! With timestamps on, a window opens with a timestamp, timestamps come in pairs
//! around text, and they never run backwards. Each rule rules out a range of
//! tokens before the next one is chosen.
use vstd::prelude::*;

use crate::ieee;
use crate::settings::Settings;

verus! {

/// A mask over the vocabulary that rules out the tokens from `lo` to below `hi`.
pub open spec fn band(vocab_size: nat, lo: int, hi: int) -> Seq<bool> {
    Seq::new(vocab_size, |i: int| lo <= i < hi)
}

/// The last of the tokens that is a timestamp.
pub open spec fn last_timestamp(tokens: Seq<u32>, timestamp_begin: int) -> Option<u32>
    decreases tokens.len(),
{
    if tokens.len() == 0 {
        None
    } else if tokens.last() >= timestamp_begin {
        Some(tokens.last())
    } else {
        last_timestamp(tokens.drop_last(), timestamp_begin)
    }
}

/// The last token is a timestamp.
pub open spec fn ends_in_timestamp(tokens: Seq<u32>, timestamp_begin: int) -> bool {
    tokens.len() > 0 && tokens.last() >= timestamp_begin
}

/// The length of the prompt when timestamps are on.
pub open spec fn sample_begin(language_token: Option<u32>) -> nat {
    if language_token is Some {
        3
    } else {
        2
    }
}

/// The masks, as sequences.
pub open spec fn rows(masks: Seq<Vec<bool>>) -> Seq<Seq<bool>> {
    masks.map_values(|mask: Vec<bool>| mask@)
}

impl Settings {
    /// Timestamps come in pairs: after two of them no third may follow, and after a
    /// single one text may not.
    pub open spec fn pairing_masks(self, sampled: Seq<u32>) -> Seq<Seq<bool>> {
        let begin = self.timestamp_begin();
        if !ends_in_timestamp(sampled, begin) {
            Seq::empty()
        } else if ends_in_timestamp(sampled.drop_last(), begin) {
            seq![band(self.vocab_size as nat, begin, self.vocab_size as int)]
        } else {
            seq![band(self.vocab_size as nat, 0, self.tokens.eot as int)]
        }
    }

    /// Timestamps do not run backwards, and only the second of a pair may repeat the
    /// first.
    pub open spec fn ordering_masks(self, sampled: Seq<u32>) -> Seq<Seq<bool>> {
        let begin = self.timestamp_begin();
        match last_timestamp(sampled, begin) {
            None => Seq::empty(),
            Some(last) => {
                let closes_pair = ends_in_timestamp(sampled, begin) && !ends_in_timestamp(
                    sampled.drop_last(),
                    begin,
                );
                seq![
                    band(
                        self.vocab_size as nat,
                        begin,
                        if closes_pair {
                            last as int
                        } else {
                            last + 1
                        },
                    ),
                ]
            },
        }
    }

    /// A window opens with a timestamp, and with one that is not too late where a
    /// limit is set.
    pub open spec fn opening_masks(self) -> Seq<Seq<bool>> {
        let begin = self.timestamp_begin();
        let vocab_size = self.vocab_size as nat;
        seq![band(vocab_size, 0, begin)] + match self.max_initial_timestamp_index {
            Some(index) => if begin + index < vocab_size {
                seq![band(vocab_size, begin + index + 1, vocab_size as int)]
            } else {
                Seq::empty()
            },
            None => Seq::empty(),
        }
    }

    /// The masks to lay over the scores of the token that follows `tokens`.
    pub open spec fn timestamp_masks(self, language_token: Option<u32>, tokens: Seq<u32>) -> Seq<
        Seq<bool>,
    > {
        let begin = sample_begin(language_token);
        if tokens.len() > begin {
            let sampled = tokens.skip(begin as int);
            self.pairing_masks(sampled) + self.ordering_masks(sampled)
        } else if tokens.len() == begin {
            self.opening_masks()
        } else {
            Seq::empty()
        }
    }

    /// The mask that leaves only timestamps, once they are together likelier than any
    /// one token of text.
    pub open spec fn timestamps_only_masks(
        self,
        timestamp_logprob: u32,
        max_text_logprob: u32,
    ) -> Seq<Seq<bool>> {
        if ieee::greater_32(timestamp_logprob, max_text_logprob) {
            seq![band(self.vocab_size as nat, 0, self.timestamp_begin())]
        } else {
            Seq::empty()
        }
    }

    /// The number of timestamp tokens in the vocabulary.
    pub open spec fn timestamp_count(self) -> nat {
        if self.timestamp_begin() <= self.vocab_size {
            (self.vocab_size - self.timestamp_begin()) as nat
        } else {
            0
        }
    }
}

/// A mask over the vocabulary that rules out the tokens from `lo` to below `hi`.
fn band_mask(vocab_size: u32, lo: u64, hi: u64) -> (r: Vec<bool>)
    ensures
        r@ == band(vocab_size as nat, lo as int, hi as int),
{
    let mut mask: Vec<bool> = Vec::new();
    let mut i: u32 = 0;
    while i < vocab_size
        invariant
            i <= vocab_size,
            mask@ == band(i as nat, lo as int, hi as int),
        decreases vocab_size - i,
    {
        mask.push(lo <= i as u64 && (i as u64) < hi);
        i += 1;
        assert(mask@ =~= band(i as nat, lo as int, hi as int));
    }
    mask
}

/// Finds the last timestamp among `tokens` from index `from` on.
fn find_last_timestamp(tokens: &Vec<u32>, from: usize, timestamp_begin: u64) -> (r: Option<u32>)
    requires
        from <= tokens@.len(),
    ensures
        r == last_timestamp(tokens@.skip(from as int), timestamp_begin as int),
{
    let mut end: usize = tokens.len();
    let ghost sampled = tokens@.skip(from as int);
    assert(sampled.take(sampled.len() as int) =~= sampled);
    while end > from
        invariant
            from <= end <= tokens@.len(),
            sampled == tokens@.skip(from as int),
            last_timestamp(sampled, timestamp_begin as int) == last_timestamp(
                sampled.take(end - from),
                timestamp_begin as int,
            ),
        decreases end,
    {
        assert(sampled.take(end - from).drop_last() =~= sampled.take(end - from - 1));
        if tokens[end - 1] as u64 >= timestamp_begin {
            return Some(tokens[end - 1]);
        }
        end -= 1;
    }
    None
}

impl Settings {
    /// The first timestamp token and the number of them.
    pub fn timestamp_range(&self) -> (r: (u64, u64))
        ensures
            r.0 == self.timestamp_begin(),
            r.1 == self.timestamp_count(),
    {
        let begin: u64 = self.tokens.no_timestamps as u64 + 1;
        if begin <= self.vocab_size as u64 {
            (begin, self.vocab_size as u64 - begin)
        } else {
            (begin, 0)
        }
    }

    /// The masks that the timestamp rules lay over the scores of the token that
    /// follows `tokens`.
    pub fn apply_timestamp_rules(&self, language_token: Option<u32>, tokens: &Vec<u32>) -> (r: Vec<
        Vec<bool>,
    >)
        ensures
            rows(r@) == self.timestamp_masks(language_token, tokens@),
    {
        let vocab_size: u32 = self.vocab_size;
        let timestamp_begin: u64 = self.tokens.no_timestamps as u64 + 1;
        let sample_begin: usize = if language_token.is_some() {
            3
        } else {
            2
        };
        let mut masks: Vec<Vec<bool>> = Vec::new();
        if tokens.len() > sample_begin {
            let n: usize = tokens.len();
            let ghost sampled = tokens@.skip(sample_begin as int);
            let last_was_timestamp = tokens[n - 1] as u64 >= timestamp_begin;
            let penultimate_was_timestamp = n >= sample_begin + 2 && tokens[n - 2] as u64
                >= timestamp_begin;
            if last_was_timestamp {
                if penultimate_was_timestamp {
                    masks.push(band_mask(vocab_size, timestamp_begin, vocab_size as u64));
                } else {
                    masks.push(band_mask(vocab_size, 0, self.tokens.eot as u64));
                }
            }
            assert(rows(masks@) =~= self.pairing_masks(sampled));
            if let Some(last) = find_last_timestamp(tokens, sample_begin, timestamp_begin) {
                let end: u64 = if last_was_timestamp && !penultimate_was_timestamp {
                    last as u64
                } else {
                    last as u64 + 1
                };
                masks.push(band_mask(vocab_size, timestamp_begin, end));
            }
            assert(rows(masks@) =~= self.pairing_masks(sampled) + self.ordering_masks(sampled));
        }
        if tokens.len() == sample_begin {
            masks.push(band_mask(vocab_size, 0, timestamp_begin));
            if let Some(index) = self.max_initial_timestamp_index {
                let last_allowed: u64 = timestamp_begin + index as u64;
                if last_allowed < vocab_size as u64 {
                    masks.push(band_mask(vocab_size, last_allowed + 1, vocab_size as u64));
                }
            }
            assert(rows(masks@) =~= self.opening_masks());
        }
        assert(rows(masks@) =~= self.timestamp_masks(language_token, tokens@));
        masks
    }

    /// The mask that leaves only timestamps, where the summed log-probability of the
    /// timestamps is above that of the likeliest token of text.
    pub fn prefer_timestamps(&self, timestamp_logprob: u32, max_text_logprob: u32) -> (r: Vec<
        Vec<bool>,
    >)
        ensures
            rows(r@) == self.timestamps_only_masks(timestamp_logprob, max_text_logprob),
    {
        let mut masks: Vec<Vec<bool>> = Vec::new();
        if ieee::is_greater_32(timestamp_logprob, max_text_logprob) {
            let timestamp_begin: u64 = self.tokens.no_timestamps as u64 + 1;
            masks.push(band_mask(self.vocab_size, 0, timestamp_begin));
        }
        assert(rows(masks@) =~= self.timestamps_only_masks(timestamp_logprob, max_text_logprob));
        masks
    }
}

/// No mask rules the token out.
pub open spec fn unmasked(masks: Seq<Seq<bool>>, token: u32) -> bool {
    forall|k: int| 0 <= k < masks.len() ==> !(#[trigger] masks[k])[token as int]
}

impl Settings {
    /// Every sampled token was left open by the masks for its place.
    pub open spec fn keeps_rules(self, language_token: Option<u32>, tokens: Seq<u32>) -> bool {
        forall|k: int|
            sample_begin(language_token) <= k < tokens.len() ==> {
                &&& #[trigger] tokens[k] < self.vocab_size
                &&& unmasked(self.timestamp_masks(language_token, tokens.take(k)), tokens[k])
            }
    }
}

/// A window opens with a timestamp, and one that is no later than the limit, if one is
/// set.
pub proof fn windows_open_with_timestamp(
    settings: Settings,
    language_token: Option<u32>,
    tokens: Seq<u32>,
)
    requires
        settings.keeps_rules(language_token, tokens),
        tokens.len() > sample_begin(language_token),
    ensures
        ({
            let first = tokens[sample_begin(language_token) as int];
            &&& first >= settings.timestamp_begin()
            &&& settings.max_initial_timestamp_index matches Some(index) ==> first
                <= settings.timestamp_begin() + index
        }),
{
    let begin = sample_begin(language_token) as int;
    let masks = settings.timestamp_masks(language_token, tokens.take(begin));
    assert(tokens[begin] < settings.vocab_size);
    assert(masks == settings.opening_masks());
    assert(!masks[0][tokens[begin] as int]);
    if let Some(index) = settings.max_initial_timestamp_index {
        if settings.timestamp_begin() + index < settings.vocab_size {
            assert(!masks[1][tokens[begin] as int]);
        }
    }
}

/// Timestamps come in pairs: no three follow one another, and after a single one comes
/// no text, that is no token below the end of the text.
pub proof fn timestamps_come_in_pairs(
    settings: Settings,
    language_token: Option<u32>,
    tokens: Seq<u32>,
    k: int,
)
    requires
        settings.keeps_rules(language_token, tokens),
        sample_begin(language_token) < k < tokens.len(),
        tokens[k - 1] >= settings.timestamp_begin(),
    ensures
        k - 1 > sample_begin(language_token) && tokens[k - 2] >= settings.timestamp_begin()
            ==> tokens[k] < settings.timestamp_begin(),
        k - 1 == sample_begin(language_token) || tokens[k - 2] < settings.timestamp_begin()
            ==> tokens[k] >= settings.tokens.eot,
{
    let start = sample_begin(language_token) as int;
    let sampled = tokens.take(k).skip(start);
    let masks = settings.timestamp_masks(language_token, tokens.take(k));
    assert(tokens[k] < settings.vocab_size);
    assert(sampled.last() == tokens[k - 1]);
    assert(settings.pairing_masks(sampled).len() == 1);
    assert(masks[0] == settings.pairing_masks(sampled)[0]);
    assert(!masks[0][tokens[k] as int]);
    if k - 1 > start {
        assert(sampled.drop_last().last() == tokens[k - 2]);
    }
}

/// The last timestamp is found wherever it stands.
proof fn last_timestamp_is_last(tokens: Seq<u32>, timestamp_begin: int, i: int)
    requires
        0 <= i < tokens.len(),
        tokens[i] >= timestamp_begin,
        forall|j: int| i < j < tokens.len() ==> tokens[j] < timestamp_begin,
    ensures
        last_timestamp(tokens, timestamp_begin) == Some(tokens[i]),
    decreases tokens.len(),
{
    if i < tokens.len() - 1 {
        last_timestamp_is_last(tokens.drop_last(), timestamp_begin, i);
    }
}

/// The last timestamp is one of the tokens and none behind it is a timestamp; there is
/// none exactly if no token is one.
pub proof fn last_timestamp_stands_last(tokens: Seq<u32>, timestamp_begin: int)
    ensures
        match last_timestamp(tokens, timestamp_begin) {
            Some(last) => exists|i: int|
                0 <= i < tokens.len() && #[trigger] tokens[i] >= timestamp_begin && tokens[i] == last
                    && (forall|j: int| i < j < tokens.len() ==> tokens[j] < timestamp_begin),
            None => forall|i: int| 0 <= i < tokens.len() ==> tokens[i] < timestamp_begin,
        },
    decreases tokens.len(),
{
    if tokens.len() > 0 {
        let n = tokens.len() - 1;
        let before = tokens.drop_last();
        if tokens.last() >= timestamp_begin {
            assert(tokens[n] >= timestamp_begin);
        } else {
            last_timestamp_stands_last(before, timestamp_begin);
            if let Some(last) = last_timestamp(before, timestamp_begin) {
                let i = choose|i: int|
                    0 <= i < before.len() && #[trigger] before[i] >= timestamp_begin && before[i]
                        == last && (forall|j: int|
                        i < j < before.len() ==> before[j] < timestamp_begin);
                assert(tokens[i] == before[i]);
                assert forall|j: int| i < j < tokens.len() implies tokens[j] < timestamp_begin by {
                    if j < n {
                        assert(tokens[j] == before[j]);
                    }
                }
            } else {
                assert forall|i: int| 0 <= i < tokens.len() implies tokens[i] < timestamp_begin by {
                    if i < n {
                        assert(tokens[i] == before[i]);
                    }
                }
            }
        }
    }
}

/// Two timestamps with none between them do not run backwards.
proof fn next_timestamp_is_no_earlier(
    settings: Settings,
    language_token: Option<u32>,
    tokens: Seq<u32>,
    i: int,
    k: int,
)
    requires
        settings.keeps_rules(language_token, tokens),
        sample_begin(language_token) <= i < k < tokens.len(),
        tokens[i] >= settings.timestamp_begin(),
        tokens[k] >= settings.timestamp_begin(),
        forall|j: int| i < j < k ==> tokens[j] < settings.timestamp_begin(),
    ensures
        tokens[i] <= tokens[k],
        k > i + 1 ==> tokens[i] < tokens[k],
{
    let start = sample_begin(language_token) as int;
    let begin = settings.timestamp_begin();
    let sampled = tokens.take(k).skip(start);
    let masks = settings.timestamp_masks(language_token, tokens.take(k));
    assert forall|j: int| i - start < j < sampled.len() implies sampled[j] < begin by {
        assert(sampled[j] == tokens[j + start]);
    }
    last_timestamp_is_last(sampled, begin, i - start);
    assert(tokens[k] < settings.vocab_size);
    let n = settings.pairing_masks(sampled).len() as int;
    assert(masks[n] == settings.ordering_masks(sampled)[0]);
    assert(!masks[n][tokens[k] as int]);
    if k > i + 1 {
        assert(sampled.last() == tokens[k - 1]);
    }
}

/// Timestamps never run backwards.
pub proof fn timestamps_never_run_backwards(
    settings: Settings,
    language_token: Option<u32>,
    tokens: Seq<u32>,
    i: int,
    k: int,
)
    requires
        settings.keeps_rules(language_token, tokens),
        sample_begin(language_token) <= i < k < tokens.len(),
        tokens[i] >= settings.timestamp_begin(),
        tokens[k] >= settings.timestamp_begin(),
    ensures
        tokens[i] <= tokens[k],
    decreases k - i,
{
    let begin = settings.timestamp_begin();
    if exists|j: int| i < j < k && tokens[j] >= begin {
        let j = choose|j: int| i < j < k && tokens[j] >= begin;
        timestamps_never_run_backwards(settings, language_token, tokens, i, j);
        timestamps_never_run_backwards(settings, language_token, tokens, j, k);
    } else {
        next_timestamp_is_no_earlier(settings, language_token, tokens, i, k);
    }
}

} // verus!
