//! What the single steps of a stream come to, in plain numbers and tokens.
//!
//! Each law here looks at what goes into a step and at what is handed out, and says how
//! the two are related, whichever way the step gets there.
use tokenizers::Tokenizer;
use vstd::prelude::*;
use vstd::utf8::encode_utf8;

use crate::builder::{token_ids, BuilderView, FilterbankView, TokenIds};
use crate::compression::zlib_stream;
use crate::config::{configured, ConfigView};
use crate::decoding::{greedy_is_last_maximum, DecodingView};
use crate::error::BuildErrorView;
use crate::laws::{answered, run};
use crate::model::{ModelSize, Task};
use crate::protocol::{ActionView, EventView, SegmentView, TranscriptView};
use crate::settings::Settings;
use crate::state::{transition_keeps_valid, Stage, State, Step};
use crate::timestamps::last_timestamp_stands_last;
use crate::tokenizer::{texts, vocabulary};

verus! {

/// Some mask rules the token out.
pub open spec fn ruled_out(masks: Seq<Seq<bool>>, token: u32) -> bool {
    exists|k: int| 0 <= k < masks.len() && (#[trigger] masks[k])[token as int]
}

/// A mask in a longer list rules out what it ruled out before.
proof fn ruled_out_by_parts(first: Seq<Seq<bool>>, second: Seq<Seq<bool>>, token: u32)
    ensures
        ruled_out(first + second, token) <==> ruled_out(first, token) || ruled_out(second, token),
{
    let both = first + second;
    if ruled_out(first, token) {
        let k = choose|k: int| 0 <= k < first.len() && (#[trigger] first[k])[token as int];
        assert(both[k] == first[k]);
    }
    if ruled_out(second, token) {
        let k = choose|k: int| 0 <= k < second.len() && (#[trigger] second[k])[token as int];
        assert(both[first.len() + k] == second[k]);
    }
    if ruled_out(both, token) {
        let k = choose|k: int| 0 <= k < both.len() && (#[trigger] both[k])[token as int];
        if k < first.len() {
            assert(first[k][token as int]);
        } else {
            assert(second[k - first.len()][token as int]);
        }
    }
}

/// A single mask rules out what it holds.
proof fn ruled_out_by_one(mask: Seq<bool>, token: u32)
    ensures
        ruled_out(seq![mask], token) <==> mask[token as int],
{
    let masks = seq![mask];
    assert(masks[0] == mask);
}

/// The place of the last timestamp among the tokens from index `from` on.
pub open spec fn is_last_timestamp(tokens: Seq<u32>, from: int, i: int, begin: int) -> bool {
    &&& from <= i < tokens.len()
    &&& tokens[i] >= begin
    &&& forall|j: int| i < j < tokens.len() ==> tokens[j] < begin
}

/// The number of tokens that decoding with timestamps starts from: three where the
/// language is among them, and else two.
pub open spec fn prompt_end(language_token: Option<u32>) -> int {
    if language_token is Some {
        3
    } else {
        2
    }
}

/// The rules for timestamps forbid the token behind the others, of which those from
/// `start` on were decoded.
///
/// Where none was: all that is no timestamp, and each timestamp behind the limit where
/// one is set. After two timestamps: every timestamp. After a single one: all below the
/// end of the text. And every timestamp before the last one, and that one too unless it
/// stands alone at the end.
pub open spec fn forbidden(
    tokens: Seq<u32>,
    start: int,
    begin: int,
    eot: u32,
    limit: Option<u32>,
    token: u32,
) -> bool {
    let n = tokens.len() as int;
    let ends = tokens[n - 1] >= begin;
    let pair = n - 1 > start && tokens[n - 2] >= begin;
    if n == start {
        token < begin || (limit is Some && token > begin + limit->0)
    } else {
        ||| ends && pair && token >= begin
        ||| ends && !pair && token < eot
        ||| exists|i: int|
            #[trigger] is_last_timestamp(tokens, start, i, begin) && begin <= token && (token
                < tokens[i] || (token == tokens[i] && !(ends && !pair)))
    }
}

/// With timestamps on, the masks that are handed out with the tokens to decode on rule
/// out exactly what the rules forbid behind those tokens.
pub proof fn masks_handed_out_are_the_rules(state: State, event: EventView, token: u32)
    requires
        state.valid(),
        state.expects(event),
        state.transition(event).1 is Forward,
        state.settings.timestamps,
        token < state.settings.vocab_size,
    ensures
        ({
            let next = state.transition(event).0;
            let tokens = state.transition(event).1->Forward_tokens;
            let masks = state.transition(event).1->Forward_masks;
            &&& tokens == next.tokens
            &&& prompt_end(next.language_token) <= tokens.len()
            &&& forall|k: int|
                0 <= k < masks.len() ==> (#[trigger] masks[k]).len() == state.settings.vocab_size
            &&& ruled_out(masks, token) <==> forbidden(
                tokens,
                prompt_end(next.language_token),
                state.settings.tokens.no_timestamps + 1,
                state.settings.tokens.eot,
                state.settings.max_initial_timestamp_index,
                token,
            )
        }),
{
    transition_keeps_valid(state, event);
    let next = state.transition(event).0;
    masks_are_the_rules(next.settings, next.language_token, next.tokens, token);
}

/// Where the tokens handed out to decode on are just the prompt, some mask of the same
/// action rules out each token that is no timestamp, and each timestamp behind the
/// limit where one is set.
pub proof fn windows_are_made_to_open_with_a_timestamp(state: State, token: u32)
    requires
        state.valid(),
        state.stage == Stage::Encode,
        state.settings.max_target_positions >= 2,
        state.settings.timestamps,
        token < state.settings.vocab_size,
    ensures
        ({
            let action = state.transition(EventView::Done).1;
            let limit = state.settings.max_initial_timestamp_index;
            let begin = state.settings.tokens.no_timestamps + 1;
            &&& action is Forward
            &&& ruled_out(action->Forward_masks, token) <==> token < begin || (limit is Some
                && token > begin + limit->0)
        }),
{
    masks_handed_out_are_the_rules(state, EventView::Done, token);
}

/// The masks rule out exactly what the rules forbid, and nothing behind less than a
/// prompt.
pub proof fn masks_are_the_rules(
    settings: Settings,
    language_token: Option<u32>,
    tokens: Seq<u32>,
    token: u32,
)
    requires
        token < settings.vocab_size,
    ensures
        ({
            let masks = settings.timestamp_masks(language_token, tokens);
            &&& forall|k: int|
                0 <= k < masks.len() ==> (#[trigger] masks[k]).len() == settings.vocab_size
            &&& tokens.len() < prompt_end(language_token) ==> masks.len() == 0
            &&& tokens.len() >= prompt_end(language_token) ==> (ruled_out(masks, token)
                <==> forbidden(
                tokens,
                prompt_end(language_token),
                settings.tokens.no_timestamps + 1,
                settings.tokens.eot,
                settings.max_initial_timestamp_index,
                token,
            ))
        }),
{
    let begin = settings.tokens.no_timestamps + 1;
    let start = prompt_end(language_token);
    let n = tokens.len() as int;
    let masks = settings.timestamp_masks(language_token, tokens);
    if n == start {
        let first = crate::timestamps::band(settings.vocab_size as nat, 0, begin);
        let rest = match settings.max_initial_timestamp_index {
            Some(index) => if begin + index < settings.vocab_size {
                seq![
                    crate::timestamps::band(
                        settings.vocab_size as nat,
                        begin + index + 1,
                        settings.vocab_size as int,
                    ),
                ]
            } else {
                Seq::empty()
            },
            None => Seq::empty(),
        };
        assert(masks =~= seq![first] + rest);
        ruled_out_by_parts(seq![first], rest, token);
        ruled_out_by_one(first, token);
        if rest.len() > 0 {
            assert(rest =~= seq![rest[0]]);
            ruled_out_by_one(rest[0], token);
        }
    } else if n > start {
        let sampled = tokens.skip(start);
        let pairing = settings.pairing_masks(sampled);
        let ordering = settings.ordering_masks(sampled);
        let ends = tokens[n - 1] >= begin;
        let pair = n - 1 > start && tokens[n - 2] >= begin;
        assert(sampled.last() == tokens[n - 1]);
        if n - 1 > start {
            assert(sampled.drop_last().last() == tokens[n - 2]);
        }
        ruled_out_by_parts(pairing, ordering, token);
        if pairing.len() > 0 {
            assert(pairing =~= seq![pairing[0]]);
            ruled_out_by_one(pairing[0], token);
        }
        last_timestamp_stands_last(sampled, begin);
        if ordering.len() > 0 {
            assert(ordering =~= seq![ordering[0]]);
            ruled_out_by_one(ordering[0], token);
            let j = choose|j: int|
                0 <= j < sampled.len() && sampled[j] >= begin && sampled[j]
                    == crate::timestamps::last_timestamp(sampled, begin)->0 && (forall|l: int|
                    j < l < sampled.len() ==> sampled[l] < begin);
            let i = j + start;
            assert(tokens[i] == sampled[j]);
            assert forall|l: int| i < l < tokens.len() implies tokens[l] < begin by {
                assert(tokens[l] == sampled[l - start]);
            }
            assert(is_last_timestamp(tokens, start, i, begin));
            assert forall|h: int| #[trigger] is_last_timestamp(tokens, start, h, begin) implies h
                == i by {}
        } else {
            assert forall|h: int| !(#[trigger] is_last_timestamp(tokens, start, h, begin)) by {
                if is_last_timestamp(tokens, start, h, begin) {
                    assert(sampled[h - start] == tokens[h]);
                }
            }
        }
    }
}

/// Without timestamps no mask is handed out with the tokens, and no timestamps are asked
/// for. With them, those are asked for that end the vocabulary.
pub proof fn timestamps_are_asked_for(state: State, event: EventView)
    requires
        state.valid(),
        state.expects(event),
        state.transition(event).1 is Forward,
    ensures
        ({
            let action = state.transition(event).1;
            let begin = state.settings.tokens.no_timestamps + 1;
            let asked = action->Forward_timestamps->0;
            &&& !state.settings.timestamps ==> action->Forward_masks.len() == 0
                && action->Forward_timestamps is None
            &&& state.settings.timestamps ==> {
                &&& action->Forward_timestamps is Some
                &&& asked.0 == begin
                &&& begin <= state.settings.vocab_size ==> begin + asked.1
                    == state.settings.vocab_size
                &&& begin > state.settings.vocab_size ==> asked.1 == 0
            }
        }),
{
}

/// Tokens after the prompt that keep the rules for timestamps: the first is a timestamp,
/// no later than the limit, no three in a row are, none that stands alone is followed by
/// text, and none is earlier than one before it.
pub open spec fn lawful(
    tokens: Seq<u32>,
    start: int,
    begin: int,
    eot: u32,
    limit: Option<u32>,
) -> bool {
    &&& tokens.len() > start ==> tokens[start] >= begin && (limit is Some ==> tokens[start] <= begin
        + limit->0)
    &&& forall|k: int|
        start < k < tokens.len() && tokens[k - 1] >= begin && k - 1 > start && tokens[k - 2]
            >= begin ==> #[trigger] tokens[k] < begin
    &&& forall|k: int|
        start < k < tokens.len() && tokens[k - 1] >= begin && !(k - 1 > start && tokens[k - 2]
            >= begin) ==> #[trigger] tokens[k] >= eot
    &&& forall|i: int, k: int|
        start <= i < k < tokens.len() && tokens[i] >= begin && tokens[k] >= begin
            ==> #[trigger] tokens[i] <= #[trigger] tokens[k]
}

/// There is a last timestamp where there is any.
proof fn some_timestamp_is_last(tokens: Seq<u32>, from: int, i: int, begin: int) -> (r: int)
    requires
        0 <= from <= i < tokens.len(),
        tokens[i] >= begin,
    ensures
        is_last_timestamp(tokens, from, r, begin),
        i <= r,
    decreases tokens.len() - i,
{
    if exists|j: int| i < j < tokens.len() && tokens[j] >= begin {
        let j = choose|j: int| i < j < tokens.len() && tokens[j] >= begin;
        some_timestamp_is_last(tokens, from, j, begin)
    } else {
        i
    }
}

/// Tokens that keep the rules still do so with a token behind them that the rules do not
/// forbid there.
pub proof fn allowed_tokens_are_lawful(
    tokens: Seq<u32>,
    start: int,
    begin: int,
    eot: u32,
    limit: Option<u32>,
    token: u32,
)
    requires
        0 < start <= tokens.len(),
        lawful(tokens, start, begin, eot, limit),
        !forbidden(tokens, start, begin, eot, limit, token),
    ensures
        lawful(tokens.push(token), start, begin, eot, limit),
{
    let n = tokens.len() as int;
    let longer = tokens.push(token);
    assert forall|i: int, k: int|
        start <= i < k < longer.len() && longer[i] >= begin && longer[k] >= begin implies
        #[trigger] longer[i] <= #[trigger] longer[k] by {
        if k < n {
            assert(tokens[i] <= tokens[k]);
        } else {
            let last = some_timestamp_is_last(tokens, start, i, begin);
            assert(is_last_timestamp(tokens, start, last, begin));
            assert(tokens[i] <= tokens[last]);
        }
    }
    assert forall|k: int|
        start < k < longer.len() && longer[k - 1] >= begin && k - 1 > start && longer[k - 2]
            >= begin implies #[trigger] longer[k] < begin by {
        if k < n {
            assert(tokens[k] < begin);
        }
    }
    assert forall|k: int|
        start < k < longer.len() && longer[k - 1] >= begin && !(k - 1 > start && longer[k - 2]
            >= begin) implies #[trigger] longer[k] >= eot by {
        if k < n {
            assert(tokens[k] >= eot);
        }
    }
}

/// A token that is picked is put behind those that were handed out to decode on.
pub proof fn picked_tokens_are_put_behind(state: State, forwarded: EventView, pick: EventView)
    requires
        state.valid(),
        state.stage == Stage::Forward,
        state.expects(forwarded),
        state.transition(forwarded).1 is Pick,
        state.transition(forwarded).0.expects(pick),
        state.transition(forwarded).0.transition(pick).1 is Score,
    ensures
        state.transition(forwarded).0.transition(pick).0.tokens == state.tokens.push(
            state.transition(forwarded).0.transition(pick).1->Score_token,
        ),
{
}

/// Decoding with timestamps keeps their rules. Tokens that are handed out to decode on
/// and keep the rules still do so with the next token behind them, if none of the masks
/// handed out with them rules that out.
pub proof fn decoding_keeps_timestamps_lawful(state: State, event: EventView, token: u32)
    requires
        state.valid(),
        state.expects(event),
        state.settings.timestamps,
        state.transition(event).1 is Forward,
        token < state.settings.vocab_size,
        !ruled_out(state.transition(event).1->Forward_masks, token),
        lawful(
            state.transition(event).1->Forward_tokens,
            prompt_end(state.transition(event).0.language_token),
            state.settings.tokens.no_timestamps + 1,
            state.settings.tokens.eot,
            state.settings.max_initial_timestamp_index,
        ),
    ensures
        lawful(
            state.transition(event).1->Forward_tokens.push(token),
            prompt_end(state.transition(event).0.language_token),
            state.settings.tokens.no_timestamps + 1,
            state.settings.tokens.eot,
            state.settings.max_initial_timestamp_index,
        ),
{
    masks_handed_out_are_the_rules(state, event, token);
    allowed_tokens_are_lawful(
        state.transition(event).1->Forward_tokens,
        prompt_end(state.transition(event).0.language_token),
        state.settings.tokens.no_timestamps + 1,
        state.settings.tokens.eot,
        state.settings.max_initial_timestamp_index,
        token,
    );
}

/// Every attempt starts from the prompt: the start of a transcript, the language if one
/// is known, the task, and without timestamps the token that turns them off. It starts
/// afresh, with nothing scored, and the probability of silence is asked for.
pub proof fn attempts_start_from_the_prompt(state: State)
    requires
        state.valid(),
        state.stage == Stage::Encode,
        state.settings.max_target_positions >= 2,
    ensures
        ({
            let next = state.transition(EventView::Done).0;
            let action = state.transition(EventView::Done).1;
            let special = state.settings.tokens;
            let tokens = action->Forward_tokens;
            let l = if state.language_token is Some { 1int } else { 0int };
            &&& action is Forward
            &&& action->Forward_first
            &&& action->Forward_no_speech == Some(special.no_speech)
            &&& tokens.len() == l + if state.settings.timestamps { 2int } else { 3int }
            &&& tokens[0] == special.sot
            &&& state.language_token is Some ==> tokens[1] == state.language_token->0
            &&& state.settings.task == Task::Transcribe ==> tokens[1 + l] == special.transcribe
            &&& state.settings.task == Task::Translate ==> tokens[1 + l] == special.translate
            &&& !state.settings.timestamps ==> tokens[2 + l] == special.no_timestamps
            &&& next.tokens == tokens
            &&& next.probs.len() == 0
            &&& next.attempt == state.attempt
            &&& next.segments == state.segments
            &&& next.seek == state.seek
            &&& next.size == state.size
            &&& state.settings.timestamps ==> lawful(
                tokens,
                prompt_end(state.language_token),
                special.no_timestamps + 1,
                special.eot,
                state.settings.max_initial_timestamp_index,
            )
        }),
{
}

/// The tokens go back to the model as they are, with the ones picked since, and only the
/// first time does it start afresh and tell the probability of silence.
pub proof fn decoding_goes_on_where_it_was(state: State, event: EventView)
    requires
        state.valid(),
        state.expects(event),
        state.stage == Stage::Score,
        state.transition(event).1 is Forward,
    ensures
        state.transition(event).1->Forward_tokens == state.tokens,
        !state.transition(event).1->Forward_first,
        state.transition(event).1->Forward_no_speech is None,
{
}

/// What is ruled out for a pick: the tokens that the stream suppresses, and all that is
/// no timestamp where the timestamps together are likelier than the likeliest other
/// token. Of two numbers in single precision, neither a NaN, the greater has the higher
/// pattern if both are without the sign bit and the lower if both are with it; if one is,
/// it is the lesser, zeros aside. The temperature is that of the attempt, and the probability of silence is kept
/// when it is told.
pub proof fn picks_carry_the_suppressed_tokens(state: State, event: EventView, token: u32)
    requires
        state.valid(),
        state.expects(event),
        state.stage == Stage::Forward,
        event is Forwarded,
        token < state.settings.vocab_size,
    ensures
        ({
            let next = state.transition(event).0;
            let action = state.transition(event).1;
            let logprobs = event->Forwarded_logprobs;
            let (stamps, other) = logprobs->0;
            let likelier = if stamps < 0x8000_0000u32 && other < 0x8000_0000u32 {
                other < stamps <= 0x7f80_0000u32
            } else if stamps >= 0x8000_0000u32 && other >= 0x8000_0000u32 {
                stamps < other <= 0xff80_0000u32
            } else {
                &&& stamps <= 0x7f80_0000u32
                &&& 0x8000_0000u32 <= other <= 0xff80_0000u32
                &&& stamps > 0 || other > 0x8000_0000u32
            };
            &&& action is Pick
            &&& action->Pick_temperature == state.attempt
            &&& action->Pick_masks.contains(state.suppress)
            &&& ruled_out(action->Pick_masks, token) <==> state.suppress[token as int] || (logprobs
                is Some && likelier && token <= state.settings.tokens.no_timestamps)
            &&& next.no_speech_prob == match event->Forwarded_no_speech_prob {
                Some(prob) => prob,
                None => state.no_speech_prob,
            }
            &&& next.tokens == state.tokens
        }),
{
    let action = state.transition(event).1;
    let masks = action->Pick_masks;
    let before = match event->Forwarded_logprobs {
        Some((timestamp, text)) => state.settings.timestamps_only_masks(timestamp, text),
        None => Seq::empty(),
    };
    assert(masks =~= before + seq![state.suppress]);
    assert(masks[masks.len() - 1] == state.suppress);
    ruled_out_by_parts(before, seq![state.suppress], token);
    ruled_out_by_one(state.suppress, token);
    if before.len() > 0 {
        assert(before =~= seq![before[0]]);
        ruled_out_by_one(before[0], token);
    }
}

/// Of the scores that are answered, the token with the highest is picked: no other is
/// higher, and none behind it as high. Scores are ordered by their patterns: those
/// without the sign bit upwards, above those with it, which go downwards.
pub proof fn highest_score_is_picked(state: State, scores: Seq<u32>, i: int)
    requires
        state.valid(),
        state.stage == Stage::Pick,
        state.expects(EventView::Scores { scores }),
        0 <= i < scores.len(),
    ensures
        ({
            let step = state.transition(EventView::Scores { scores });
            let token = step.1->Score_token;
            let best = scores[token as int];
            let here = scores[i];
            let sign = 0x8000_0000u32;
            let lower = if here < sign && best < sign {
                here < best
            } else if here >= sign && best >= sign {
                here > best
            } else {
                here >= sign
            };
            &&& step.1 is Score
            &&& token < scores.len()
            &&& here == best || lower
            &&& i > token ==> lower
            &&& step.0.tokens == state.tokens.push(token)
        }),
{
    greedy_is_last_maximum(scores);
    let token = state.transition(EventView::Scores { scores }).1->Score_token;
    assert(token == crate::decoding::greedy(scores));
    let best = scores[token as int];
    let here = scores[i];
    if crate::ieee::total_rank_32(here) == crate::ieee::total_rank_32(best) {
        crate::ieee::total_rank_is_injective(here, best);
    }
}

/// A token that was drawn is taken as it is.
pub proof fn drawn_tokens_are_taken(state: State, token: u32)
    requires
        state.valid(),
        state.stage == Stage::Pick,
        state.expects(EventView::Sampled { token }),
    ensures
        state.attempt > 0,
        state.transition(EventView::Sampled { token }).1 == (ActionView::Score { token }),
        state.transition(EventView::Sampled { token }).0.tokens == state.tokens.push(token),
{
}

/// Decoding goes on exactly until the end of the text is picked, the tokens are more than
/// the model has positions, or half as many as that were decoded. Every probability
/// that is answered is kept behind those before.
pub proof fn decoding_stops_where_it_has_to(state: State, prob: u64)
    requires
        state.valid(),
        state.stage == Stage::Score,
    ensures
        ({
            let next = state.transition(EventView::Prob { prob }).0;
            let action = state.transition(EventView::Prob { prob }).1;
            let last = state.tokens[state.tokens.len() - 1];
            &&& action is Forward <==> {
                &&& last != state.settings.tokens.eot
                &&& state.tokens.len() <= state.settings.max_target_positions
                &&& state.probs.len() + 1 < state.settings.max_target_positions / 2
            }
            &&& !(action is Forward) ==> action is Average || action is Text
            &&& next.tokens == state.tokens
            &&& next.probs == state.probs.push(prob)
            &&& action is Average ==> action->Average_probs == state.probs.push(prob)
                && action->Average_count == state.probs.len() + 1
        }),
{
    transition_keeps_valid(state, EventView::Prob { prob });
}

/// The tokens that are no timestamps, in their order: those up to the one that turns
/// timestamps off, which all timestamps follow.
pub open spec fn spoken(tokens: Seq<u32>, no_timestamps: u32) -> Seq<u32> {
    tokens.filter(|token: u32| token <= no_timestamps)
}

/// The tokenizer makes text of any ids.
pub open spec fn spells_all(tokenizer: Tokenizer) -> bool {
    forall|ids: Seq<u32>, skip: bool| #[trigger] texts(tokenizer).contains_key((ids, skip))
}

/// These are the tokens that are turned into text.
proof fn text_is_below_timestamps(state: State)
    ensures
        state.spoken_tokens() == spoken(state.tokens, state.settings.tokens.no_timestamps),
{
    let ours = |token: u32| token <= state.settings.tokens.no_timestamps;
    let theirs = |token: u32| token < state.settings.timestamp_begin();
    assert(ours =~= theirs);
}

/// Text is made of the tokens of the attempt that are no timestamps, all of them and in
/// their order, whatever the settings: where the caller is asked for it, those are the
/// tokens handed out, and where it is not, it is what the tokenizer makes of them,
/// special tokens skipped.
pub proof fn text_is_made_without_timestamps(state: State, event: EventView)
    requires
        state.valid(),
        state.expects(event),
    ensures
        ({
            let next = state.transition(event).0;
            let action = state.transition(event).1;
            let spoken = spoken(next.tokens, state.settings.tokens.no_timestamps);
            &&& action is Text ==> action->Text_tokens == spoken
            &&& action is Average && !(event is Text) ==> next.text == texts(state.tokenizer)[(
                spoken,
                true,
            )]
            &&& action is Average && event is Text ==> event->Text_outcome is Ok && next.text
                == event->Text_outcome->Ok_0
            &&& forall|i: int|
                action is Text && 0 <= i < action->Text_tokens.len()
                    ==> #[trigger] action->Text_tokens[i] <= state.settings.tokens.no_timestamps
        }),
{
    let next = state.transition(event).0;
    let action = state.transition(event).1;
    text_is_below_timestamps(next);
    text_is_below_timestamps(state);
    let keep = |token: u32| token <= state.settings.tokens.no_timestamps;
    if action is Text {
        assert forall|i: int| 0 <= i < action->Text_tokens.len() implies
            #[trigger] action->Text_tokens[i] <= state.settings.tokens.no_timestamps by {
            next.tokens.lemma_filter_pred(keep, i);
        }
    }
}

/// The caller is asked for text exactly where the tokenizer cannot be relied on for all.
pub proof fn text_is_asked_for_where_needed(state: State, event: EventView)
    requires
        state.valid(),
        state.expects(event),
    ensures
        state.transition(event).1 is Text ==> !spells_all(state.tokenizer),
        state.transition(event).1 is Average && !(event is Text) ==> spells_all(state.tokenizer),
{
}

/// What is known of the text of every attempt that is judged and of every window that was
/// decoded: it is what the tokenizer makes of the tokens that are no timestamps, if that
/// can be relied on, and its lengths in bytes, plain and compressed, are those that were
/// taken down, or one and one where there is nothing to measure.
pub open spec fn well_spelled(state: State) -> bool {
    let relied_on = spells_all(state.tokenizer);
    let last = state.settings.tokens.no_timestamps;
    &&& state.stage == Stage::Text ==> !relied_on
    &&& state.stage == Stage::Average ==> {
        &&& relied_on ==> state.text == texts(state.tokenizer)[(spoken(state.tokens, last), true)]
        &&& measured(state.text, state.ratio.text_len, state.ratio.compressed_len)
    }
    &&& forall|i: int|
        0 <= i < state.segments.len() ==> {
            let result = (#[trigger] state.segments[i]).result;
            &&& relied_on ==> result.text == texts(state.tokenizer)[(
                spoken(result.tokens, last),
                true,
            )]
            &&& measured(
                result.text,
                result.compression_ratio.text_len,
                result.compression_ratio.compressed_len,
            )
        }
}

/// The lengths are those of a text in bytes and of its zlib stream, or one and one where
/// the text is empty or has no stream.
pub open spec fn measured(text: Seq<char>, plain: nat, compressed: nat) -> bool {
    let bytes = encode_utf8(text);
    let stream = zlib_stream(bytes);
    if bytes.len() > 0 && stream is Some && stream->0.len() > 0 {
        plain == bytes.len() && compressed == stream->0.len()
    } else {
        plain == 1 && compressed == 1
    }
}

/// A new stream is well spelled, and stays so whatever is fed to it.
pub proof fn streams_start_well_spelled(
    state: State,
    settings: Settings,
    tokenizer: Tokenizer,
    suppress: Seq<bool>,
    language_token: Option<u32>,
    pcm: Seq<u32>,
)
    ensures
        well_spelled(State::initial(settings, tokenizer, suppress, language_token)),
        state.valid() && state.stage == Stage::Idle && well_spelled(state) ==> well_spelled(
            state.feed(pcm).0,
        ) && well_spelled(state.drain().0),
{
}

/// Every step keeps a stream well spelled.
#[verifier::rlimit(40)]
pub proof fn steps_stay_well_spelled(state: State, event: EventView)
    requires
        state.valid(),
        state.expects(event),
        well_spelled(state),
    ensures
        well_spelled(state.transition(event).0),
{
    let next = state.transition(event).0;
    text_is_below_timestamps(state);
    let begun = State { tokens: state.settings.prompt(state.language_token), ..state };
    text_is_below_timestamps(begun);
}

/// When an attempt has come to a decoding, it is judged by its numbers.
///
/// Another attempt is made, at the next temperature, exactly if fewer than six were made,
/// the text has more than 2.4 bytes to a compressed byte or the average log-probability
/// is below -1.0, and the probability of silence is not above 0.6. Otherwise the window
/// is done with. Then it is handed out, with its place in the chunk and all that was
/// decoded, unless the probability of silence is above 0.6 and the average below -1.0.
///
/// In double precision the numbers above 0.6 have the patterns above that of 0.6, up to
/// infinity; those below -1.0 have the patterns above that of -1.0, up to negative
/// infinity.
pub proof fn attempts_are_judged_by_their_numbers(state: State, avg_logprob: u64)
    requires
        state.valid(),
        state.stage == Stage::Average,
    ensures
        ({
            let next = state.transition(EventView::Average { avg_logprob }).0;
            let action = state.transition(EventView::Average { avg_logprob }).1;
            let repeats = 5 * state.ratio.text_len > 12 * state.ratio.compressed_len;
            let unlikely = 0xbff0_0000_0000_0000 < avg_logprob <= 0xfff0_0000_0000_0000;
            let silence = 0x3fe3_3333_3333_3333 < state.no_speech_prob <= 0x7ff0_0000_0000_0000;
            let again = state.attempt < 5 && (repeats || unlikely) && !silence;
            let window = SegmentView {
                start: state.seek * 160int,
                duration: state.size * 160int,
                result: DecodingView {
                    tokens: state.tokens,
                    text: state.text,
                    avg_logprob,
                    no_speech_prob: state.no_speech_prob,
                    temperature: state.attempt,
                    compression_ratio: state.ratio,
                },
            };
            &&& again ==> {
                &&& action == (ActionView::Encode {
                    temperature: state.attempt + 1int,
                    failure: None,
                })
                &&& next.attempt == state.attempt + 1
                &&& next.segments == state.segments
                &&& next.seek == state.seek
                &&& next.size == state.size
            }
            &&& !again ==> {
                &&& action is Window || action is Reset
                &&& next.seek == state.seek + state.size
                &&& next.segments == if silence && unlikely {
                    state.segments
                } else {
                    state.segments.push(window)
                }
            }
        }),
{
}

/// A decoding is settled, and silent, by the same numbers.
pub proof fn decodings_are_settled_by_their_numbers(result: DecodingView)
    ensures
        ({
            let repeats = 5 * result.compression_ratio.text_len > 12
                * result.compression_ratio.compressed_len;
            let unlikely = 0xbff0_0000_0000_0000 < result.avg_logprob <= 0xfff0_0000_0000_0000;
            let silence = 0x3fe3_3333_3333_3333 < result.no_speech_prob <= 0x7ff0_0000_0000_0000;
            &&& result.settled() <==> result.temperature >= 5 || silence || !(repeats || unlikely)
            &&& result.silent() <==> silence && unlikely
        }),
{
}

/// An attempt in which nothing could be decoded is judged as one whose average is zero.
pub proof fn empty_attempts_average_zero(state: State, text: Seq<char>)
    requires
        state.valid(),
        state.stage == Stage::Text,
        state.probs.len() == 0,
    ensures
        ({
            let step = state.transition(EventView::Text { outcome: Ok(text) });
            exists|plain: nat, compressed: nat|
                #[trigger] measured(text, plain, compressed) && step == (State {
                    text,
                    ratio: crate::compression::RatioView {
                        text_len: plain,
                        compressed_len: compressed,
                    },
                    stage: Stage::Average,
                    ..state
                }).transition(EventView::Average { avg_logprob: 0 })
        }),
{
    let ratio = crate::compression::text_ratio(text);
    assert(measured(text, ratio.text_len, ratio.compressed_len));
    let judged = State {
        text,
        ratio: crate::compression::RatioView {
            text_len: ratio.text_len,
            compressed_len: ratio.compressed_len,
        },
        stage: Stage::Average,
        ..state
    };
    let step = state.transition(EventView::Text { outcome: Ok(text) });
    assert(state.decoded().len() == 0);
    assert(step.0 =~= judged.transition(EventView::Average { avg_logprob: 0 }).0);
    assert(step.1 =~= judged.transition(EventView::Average { avg_logprob: 0 }).1);
}

/// Where the model has no room to decode into, the prompt is turned into text, and the
/// attempt is judged as one whose average is zero and whose probability of silence is
/// no number.
pub proof fn attempts_without_room_average_zero(state: State)
    requires
        state.valid(),
        state.stage == Stage::Encode,
        state.settings.max_target_positions < 2,
    ensures
        ({
            let step = state.transition(EventView::Done);
            let prompt = step.0.tokens;
            let text = texts(state.tokenizer)[(
                spoken(prompt, state.settings.tokens.no_timestamps),
                true,
            )];
            &&& step.0.no_speech_prob == 0x7ff8_0000_0000_0000
            &&& step.0.probs.len() == 0
            &&& prompt.len() == prompt_end(state.language_token) + if state.settings.timestamps {
                0int
            } else {
                1int
            }
            &&& !spells_all(state.tokenizer) ==> step.1 is Text
            &&& spells_all(state.tokenizer) ==> exists|plain: nat, compressed: nat|
                #[trigger] measured(text, plain, compressed) && step == (State {
                    tokens: prompt,
                    probs: Seq::empty(),
                    no_speech_prob: 0x7ff8_0000_0000_0000,
                    step: 0,
                    text,
                    ratio: crate::compression::RatioView {
                        text_len: plain,
                        compressed_len: compressed,
                    },
                    stage: Stage::Average,
                    ..state
                }).transition(EventView::Average { avg_logprob: 0 })
        }),
{
    let step = state.transition(EventView::Done);
    let begun = State {
        tokens: state.settings.prompt(state.language_token),
        probs: Seq::empty(),
        no_speech_prob: 0x7ff8_0000_0000_0000,
        step: 0,
        ..state
    };
    text_is_below_timestamps(begun);
    assert(step == begun.spell_out());
    assert(begun.decoded().len() == 0);
    let text = texts(state.tokenizer)[(
        spoken(begun.tokens, state.settings.tokens.no_timestamps),
        true,
    )];
    let ratio = crate::compression::text_ratio(text);
    assert(measured(text, ratio.text_len, ratio.compressed_len));
    let judged = State {
        text,
        ratio: crate::compression::RatioView {
            text_len: ratio.text_len,
            compressed_len: ratio.compressed_len,
        },
        stage: Stage::Average,
        ..begun
    };
    if spells_all(state.tokenizer) {
        assert(step.0 =~= judged.transition(EventView::Average { avg_logprob: 0 }).0);
        assert(step.1 =~= judged.transition(EventView::Average { avg_logprob: 0 }).1);
    }
}

/// A step leaves alone what it is not about: audio and time until the chunk is handed out
/// or given up, what was recognized before unless it fails, the spectrogram and the
/// windows done with until a window is judged, the language but for its detection, and
/// within an attempt its number, its tokens but for a pick, their probabilities but for
/// an answer, and the probability of silence but for the first answer.
pub proof fn steps_leave_the_rest_alone(state: State, event: EventView)
    requires
        state.valid(),
        state.expects(event),
    ensures
        ({
            let next = state.transition(event).0;
            let action = state.transition(event).1;
            let going_on = !(action is Failed) && state.stage != Stage::Reset;
            let judged = state.stage == Stage::Average || state.stage == Stage::Text || (state.stage
                == Stage::Encode && event is Done);
            &&& going_on ==> {
                &&& next.buffer == state.buffer
                &&& next.out == state.out
                &&& next.offset == state.offset
                &&& next.chunk_len == state.chunk_len
            }
            &&& !(event is Mel) ==> next.frames == state.frames
            &&& going_on && !(event is Mel) && !(action is Window || action is Reset) ==> {
                &&& next.segments == state.segments
                &&& next.seek == state.seek
                &&& next.size == state.size
            }
            &&& (state.stage == Stage::Spectrogram || state.stage == Stage::Language)
                && going_on ==> {
                &&& next.segments == state.segments
                &&& next.seek == state.seek
            }
            &&& action is Window || action is Reset ==> state.stage == Stage::Spectrogram
                || state.stage == Stage::Language || judged
            &&& !(event is Language) ==> next.language_token == state.language_token
            &&& state.in_attempt() && !(action is Encode) ==> next.attempt == state.attempt
            &&& state.in_decoding() && !(action is Score) ==> next.tokens == state.tokens
            &&& state.in_decoding() && !(event is Prob) ==> next.probs == state.probs
            &&& state.in_decoding() && !(event is Forwarded) ==> next.no_speech_prob
                == state.no_speech_prob
            &&& !(state.stage == Stage::Text || state.stage == Stage::Score || state.stage
                == Stage::Encode) ==> next.text == state.text && next.ratio == state.ratio
        }),
{
}

/// The windows of a chunk follow one another from its first column to its last, each as
/// long as is left, up to 3000 columns. The caches are emptied once none is left.
pub proof fn windows_cover_the_chunk(state: State, event: EventView)
    requires
        state.valid(),
        state.expects(event),
        state.transition(event).1 is Window || state.transition(event).1 is Reset,
    ensures
        ({
            let next = state.transition(event).0;
            let action = state.transition(event).1;
            let left = next.frames - next.seek;
            &&& next.frames == state.frames
            &&& next.seek == if state.stage == Stage::Average || state.in_attempt() || state.stage
                == Stage::Text {
                state.seek + state.size
            } else {
                state.seek
            }
            &&& left > 0 ==> action == (ActionView::Window {
                seek: next.seek as int,
                size: if left < 3000 { left } else { 3000 },
            }) && next.size == action->Window_size
            &&& left <= 0 ==> action is Reset
        }),
{
}

/// The coefficients make up a spectrogram of as many columns as they fill, and its
/// windows are walked through from the first column.
pub proof fn spectrograms_start_at_their_first_column(state: State, len: int)
    requires
        state.valid(),
        state.stage == Stage::Mel,
        state.expects(EventView::Mel { len }),
    ensures
        ({
            let next = state.transition(EventView::Mel { len }).0;
            let bins = state.settings.num_mel_bins as int;
            &&& state.transition(EventView::Mel { len }).1 == (ActionView::Spectrogram {
                bins,
                frames: next.frames as int,
            })
            &&& bins * next.frames <= len < bins * (next.frames + 1)
            &&& next.seek == 0
            &&& next.segments.len() == 0
        }),
{
    let bins = state.settings.num_mel_bins as int;
    let frames = len / bins;
    assert(0 <= frames && bins * frames <= len < bins * (frames + 1)) by (nonlinear_arith)
        requires
            bins > 0,
            len >= 0,
            frames == len / bins,
    ;
}

/// The language is detected exactly if the model knows several and none is known, and
/// what is detected is kept.
pub proof fn unknown_languages_are_detected(state: State, token: u32)
    requires
        state.valid(),
    ensures
        state.stage == Stage::Spectrogram ==> (state.transition(EventView::Done).1
            is DetectLanguage <==> state.settings.is_multilingual && state.language_token is None),
        state.stage == Stage::Spectrogram ==> {
            let action = state.transition(EventView::Done).1;
            action is DetectLanguage || action is Window || action is Reset
        },
        state.stage == Stage::Language ==> {
            let step = state.transition(EventView::Language { token });
            &&& step.0.language_token == Some(token)
            &&& step.1 is Window || step.1 is Reset
        },
{
}

/// A window that is there is encoded at the lowest temperature.
pub proof fn windows_are_first_decoded_greedily(state: State)
    requires
        state.valid(),
        state.stage == Stage::Window,
    ensures
        state.transition(EventView::Done).1 == (ActionView::Encode {
            temperature: 0,
            failure: None,
        }),
        state.transition(EventView::Done).0.attempt == 0,
        state.transition(EventView::Done).0.segments == state.segments,
        state.transition(EventView::Done).0.seek == state.seek,
        state.transition(EventView::Done).0.size == state.size,
{
}

/// What fails outside of an attempt fails the chunk. An attempt that fails is followed by
/// one at the next temperature, with its message only if reports are wanted; the sixth
/// fails the chunk.
pub proof fn failures_are_retried_or_reported(state: State, event: EventView, message: Seq<char>)
    requires
        state.valid(),
        state.expects(event),
        event == (EventView::Failed { message }) || event == (EventView::Text {
            outcome: Err(message),
        }),
    ensures
        ({
            let next = state.transition(event).0;
            let action = state.transition(event).1;
            let attempt = state.stage != Stage::Spectrogram && state.stage != Stage::Language
                && state.stage != Stage::Window;
            &&& attempt && state.attempt < 5 ==> {
                &&& action == (ActionView::Encode {
                    temperature: state.attempt + 1int,
                    failure: if state.settings.verbose { Some(message) } else { None },
                })
                &&& next.attempt == state.attempt + 1
                &&& next.segments == state.segments
                &&& next.seek == state.seek
                &&& next.size == state.size
            }
            &&& !attempt || state.attempt == 5 ==> action == (ActionView::Failed { message })
        }),
{
}

/// Audio that is fed is cut as soon as there is a chunk of it, and into whole chunks.
pub proof fn chunks_are_cut_whole(state: State, pcm: Seq<u32>)
    requires
        state.valid(),
        state.stage == Stage::Idle,
    ensures
        ({
            let next = state.feed(pcm).0;
            let action = state.feed(pcm).1;
            let n = state.settings.chunk_samples as int;
            let all = state.buffer + pcm;
            &&& all.len() >= n ==> {
                &&& action is Mel
                &&& action->Mel_pcm.len() == n
                &&& action->Mel_pcm + next.buffer == all
                &&& next.chunk_len == n
                &&& next.out.len() == 0
                &&& next.stage == Stage::Mel
            }
            &&& all.len() < n ==> {
                &&& action == (ActionView::Finished { chunks: Seq::empty() })
                &&& next.buffer == all
                &&& next.stage == Stage::Idle
            }
            &&& next.offset == state.offset
        }),
{
    let n = state.settings.chunk_samples as int;
    let all = state.buffer + pcm;
    if all.len() >= n {
        assert(state.feed(pcm).1->Mel_pcm + state.feed(pcm).0.buffer =~= all);
    }
}

/// A flush has all that is left decoded as one chunk, if there is anything.
pub proof fn flushes_cut_the_rest(state: State)
    requires
        state.valid(),
        state.stage == Stage::Idle,
    ensures
        state.buffer.len() > 0 ==> state.drain().1 == (ActionView::Mel { pcm: state.buffer }),
        state.buffer.len() == 0 ==> state.drain().1 == (ActionView::Finished {
            chunks: Seq::empty(),
        }),
        state.drain().0.buffer.len() == 0,
        state.buffer.len() > 0 ==> state.drain().0.chunk_len == state.buffer.len(),
        state.drain().0.out.len() == 0,
        state.drain().0.offset == state.offset,
{
}

/// A chunk that is complete is handed out behind the chunks before it, window by window:
/// each with its place counted from the start of the stream, and with what was decoded.
/// Then time moves on by the chunk, and the next one is taken up if it is whole.
pub proof fn complete_chunks_are_handed_out(state: State)
    requires
        state.valid(),
        state.stage == Stage::Reset,
    ensures
        ({
            let next = state.transition(EventView::Done).0;
            let action = state.transition(EventView::Done).1;
            let n = state.settings.chunk_samples as int;
            let whole = state.buffer.len() >= n;
            let done = if whole { next.out } else { action->Finished_chunks };
            &&& done.len() == state.out.len() + state.segments.len()
            &&& forall|i: int| 0 <= i < state.out.len() ==> done[i] == #[trigger] state.out[i]
            &&& forall|i: int|
                0 <= i < state.segments.len() ==> done[state.out.len() + i] == (TranscriptView {
                    start: state.offset + (#[trigger] state.segments[i]).start,
                    duration: state.segments[i].duration,
                    text: state.segments[i].result.text,
                    avg_logprob: state.segments[i].result.avg_logprob,
                    no_speech_prob: state.segments[i].result.no_speech_prob,
                })
            &&& next.offset == state.offset + state.chunk_len
            &&& whole ==> {
                &&& action is Mel
                &&& action->Mel_pcm.len() == n
                &&& action->Mel_pcm + next.buffer == state.buffer
                &&& next.chunk_len == n
            }
            &&& !whole ==> action is Finished && next.buffer == state.buffer
        }),
{
    let n = state.settings.chunk_samples as int;
    let next = state.transition(EventView::Done).0;
    let action = state.transition(EventView::Done).1;
    if state.buffer.len() >= n {
        assert(action->Mel_pcm + next.buffer =~= state.buffer);
    }
}

/// What a stream is set to do, its tokenizer and the tokens that it suppresses never
/// change.
pub proof fn settings_never_change(state: State, event: EventView, pcm: Seq<u32>)
    ensures
        state.expects(event) ==> {
            let next = state.transition(event).0;
            &&& next.settings == state.settings
            &&& next.tokenizer == state.tokenizer
            &&& next.suppress == state.suppress
        },
        state.feed(pcm).0.language_token == state.language_token,
        state.drain().0.language_token == state.language_token,
        state.feed(pcm).0.settings == state.settings,
        state.feed(pcm).0.tokenizer == state.tokenizer,
        state.feed(pcm).0.suppress == state.suppress,
        state.drain().0.settings == state.settings,
        state.drain().0.tokenizer == state.tokenizer,
        state.drain().0.suppress == state.suppress,
{
}

/// At every point of a run a pick carries the mask that the stream had before it.
proof fn picks_carry_the_first_mask(step: Step, events: Seq<EventView>)
    requires
        step.0.valid(),
        step.1 is Pick ==> step.1->Pick_masks.contains(step.0.suppress),
        answered(step, events),
        run(step, events).1 is Pick,
    ensures
        run(step, events).1->Pick_masks.contains(step.0.suppress),
    decreases events.len(),
{
    if events.len() > 0 {
        let next = step.0.transition(events[0]);
        transition_keeps_valid(step.0, events[0]);
        settings_never_change(step.0, events[0], Seq::empty());
        if next.1 is Pick {
            assert(next.1->Pick_masks[next.1->Pick_masks.len() - 1] == step.0.suppress);
        }
        picks_carry_the_first_mask(next, events.drop_first());
    }
}

/// No token that the configuration lists is ever left open for a pick: in a stream with
/// the mask that it was built with, each pick of each run rules it out.
pub proof fn listed_tokens_are_never_open(
    builder: BuilderView,
    config: ConfigView,
    tokenizer: Tokenizer,
    ids: TokenIds,
    state: State,
    pcm: Seq<u32>,
    events: Seq<EventView>,
    k: int,
)
    requires
        builder.built(config, tokenizer, ids) is Ok,
        state.valid(),
        state.stage == Stage::Idle,
        state.offset + state.buffer.len() + pcm.len() <= u64::MAX,
        state.suppress == builder.built(config, tokenizer, ids)->Ok_0.suppress,
        0 <= k < config.suppress_tokens.len(),
        config.suppress_tokens[k] < config.vocab_size,
    ensures
        answered(state.feed(pcm), events) && run(state.feed(pcm), events).1 is Pick ==> ruled_out(
            run(state.feed(pcm), events).1->Pick_masks,
            config.suppress_tokens[k],
        ),
        answered(state.drain(), events) && run(state.drain(), events).1 is Pick ==> ruled_out(
            run(state.drain(), events).1->Pick_masks,
            config.suppress_tokens[k],
        ),
{
    let token = config.suppress_tokens[k];
    built_streams_suppress_what_is_listed(builder, config, tokenizer, ids, token);
    settings_never_change(state, EventView::Done, pcm);
    if answered(state.feed(pcm), events) && run(state.feed(pcm), events).1 is Pick {
        picks_carry_the_first_mask(state.feed(pcm), events);
        let masks = run(state.feed(pcm), events).1->Pick_masks;
        assert(masks[masks.index_of(state.suppress)][token as int]);
    }
    if answered(state.drain(), events) && run(state.drain(), events).1 is Pick {
        picks_carry_the_first_mask(state.drain(), events);
        let masks = run(state.drain(), events).1->Pick_masks;
        assert(masks[masks.index_of(state.suppress)][token as int]);
    }
}

/// Every action can be answered as it says: by its own event with whatever was computed,
/// and where computing can fail, by a failure.
pub proof fn actions_can_be_answered(state: State, event: EventView, answer: EventView)
    requires
        state.valid(),
        state.expects(event),
    ensures
        ({
            let next = state.transition(event).0;
            match state.transition(event).1 {
                ActionView::Mel { .. } => match answer {
                    EventView::Mel { len } => next.expects(answer) <==> {
                        &&& state.settings.num_mel_bins > 0
                        &&& 0 <= len
                        &&& (len / state.settings.num_mel_bins as int) * 160 <= usize::MAX
                    },
                    _ => !next.expects(answer),
                },
                ActionView::Spectrogram { .. } | ActionView::Window { .. } | ActionView::Encode {
                    ..
                } => next.expects(answer) <==> answer is Done || answer is Failed,
                ActionView::DetectLanguage => next.expects(answer) <==> answer is Language || answer
                    is Failed,
                ActionView::Forward { no_speech, timestamps, .. } => match answer {
                    EventView::Forwarded { no_speech_prob, logprobs } => next.expects(answer)
                        <==> (no_speech_prob is Some <==> no_speech is Some) && (logprobs is Some
                        <==> timestamps is Some),
                    _ => next.expects(answer) <==> answer is Failed,
                },
                ActionView::Pick { temperature, .. } => match answer {
                    EventView::Scores { scores } => next.expects(answer) <==> temperature == 0 && 0
                        < scores.len() <= u32::MAX,
                    EventView::Sampled { .. } => next.expects(answer) <==> temperature > 0,
                    _ => next.expects(answer) <==> answer is Failed,
                },
                ActionView::Score { .. } => next.expects(answer) <==> answer is Prob || answer
                    is Failed,
                ActionView::Text { .. } => next.expects(answer) <==> answer is Text,
                ActionView::Average { .. } => next.expects(answer) <==> answer is Average,
                ActionView::Reset => next.expects(answer) <==> answer is Done,
                ActionView::Finished { .. } | ActionView::Failed { .. } => !next.expects(answer),
            }
        }),
{
}

/// The tokens that a built stream suppresses are those that the configuration lists, and
/// with timestamps on the one that would turn them off, whatever else was chosen.
pub proof fn built_streams_suppress_what_is_listed(
    builder: BuilderView,
    config: ConfigView,
    tokenizer: Tokenizer,
    ids: TokenIds,
    token: u32,
)
    requires
        builder.built(config, tokenizer, ids) is Ok,
        token < config.vocab_size,
    ensures
        ({
            let state = builder.built(config, tokenizer, ids)->Ok_0;
            &&& state.suppress.len() == config.vocab_size
            &&& state.suppress[token as int] <==> (exists|k: int|
                0 <= k < config.suppress_tokens.len() && #[trigger] config.suppress_tokens[k]
                    == token) || (builder.timestamps && ids.no_timestamps == Some(token))
        }),
{
}

/// What was chosen and what the model is like arrives in the stream, which starts with
/// nothing heard.
pub proof fn choices_arrive_in_the_stream(
    builder: BuilderView,
    config: ConfigView,
    tokenizer: Tokenizer,
    ids: TokenIds,
)
    requires
        builder.built(config, tokenizer, ids) is Ok,
    ensures
        ({
            let state = builder.built(config, tokenizer, ids)->Ok_0;
            &&& state.settings.task == builder.task
            &&& state.settings.timestamps == builder.timestamps
            &&& state.settings.max_initial_timestamp_index == builder.max_initial_timestamp_index
            &&& state.settings.verbose == builder.verbose
            &&& state.settings.is_multilingual == builder.size.multilingual()
            &&& state.settings.vocab_size == config.vocab_size
            &&& state.settings.num_mel_bins == config.num_mel_bins
            &&& state.settings.max_target_positions == config.max_target_positions
            &&& state.tokenizer == tokenizer
            &&& state.stage == Stage::Idle
            &&& state.offset == 0
            &&& state.buffer.len() == 0
            &&& state.out.len() == 0
        }),
{
}

/// A stream is built exactly if the files exist and the tokenizer knows all that is
/// needed: five tokens, one of two that stand for silence, and that of the language if
/// one is set and the model knows several. Each token has the id that the tokenizer
/// gives it.
pub proof fn streams_are_built_from_known_tokens(
    builder: BuilderView,
    config: ConfigView,
    tokenizer: Tokenizer,
)
    ensures
        ({
            let known = vocabulary(tokenizer);
            let built = builder.built(
                config,
                tokenizer,
                token_ids(tokenizer, builder.wanted_language()),
            );
            let language = builder.size.multilingual() && builder.language is Some;
            let tag = "<|"@ + builder.language->0 + "|>"@;
            let tokens = built->Ok_0.settings.tokens;
            &&& built is Ok <==> {
                &&& !builder.quantized || builder.size == ModelSize::Tiny
                    || builder.size == ModelSize::TinyEn
                &&& known.contains_key("<|notimestamps|>"@)
                &&& known.contains_key("<|startoftranscript|>"@)
                &&& known.contains_key("<|transcribe|>"@)
                &&& known.contains_key("<|translate|>"@)
                &&& known.contains_key("<|endoftext|>"@)
                &&& known.contains_key("<|nocaptions|>"@) || known.contains_key("<|nospeech|>"@)
                &&& language ==> known.contains_key(tag)
            }
            &&& built is Ok ==> {
                &&& tokens.no_timestamps == known["<|notimestamps|>"@]
                &&& tokens.sot == known["<|startoftranscript|>"@]
                &&& tokens.transcribe == known["<|transcribe|>"@]
                &&& tokens.translate == known["<|translate|>"@]
                &&& tokens.eot == known["<|endoftext|>"@]
                &&& known.contains_key("<|nocaptions|>"@) ==> tokens.no_speech
                    == known["<|nocaptions|>"@]
                &&& !known.contains_key("<|nocaptions|>"@) ==> tokens.no_speech
                    == known["<|nospeech|>"@]
                &&& language ==> built->Ok_0.language_token == Some(known[tag])
                &&& !language ==> built->Ok_0.language_token is None
            }
        }),
{
}

/// What is missing is named in the order of files, tokens, silence and language.
pub proof fn missing_tokens_are_named(
    builder: BuilderView,
    config: ConfigView,
    tokenizer: Tokenizer,
)
    ensures
        ({
            let known = vocabulary(tokenizer);
            let built = builder.built(
                config,
                tokenizer,
                token_ids(tokenizer, builder.wanted_language()),
            );
            let error = built->Err_0;
            let files = !builder.quantized || builder.size == ModelSize::Tiny
                || builder.size == ModelSize::TinyEn;
            let a = known.contains_key("<|notimestamps|>"@);
            let b = known.contains_key("<|startoftranscript|>"@);
            let c = known.contains_key("<|transcribe|>"@);
            let d = known.contains_key("<|translate|>"@);
            let e = known.contains_key("<|endoftext|>"@);
            let silence = known.contains_key("<|nocaptions|>"@) || known.contains_key(
                "<|nospeech|>"@,
            );
            &&& !files ==> built is Err && error == BuildErrorView::QuantizedUnavailable
            &&& files && !a ==> built is Err && error == BuildErrorView::MissingToken(
                "<|notimestamps|>"@,
            )
            &&& files && a && !b ==> built is Err && error == BuildErrorView::MissingToken(
                "<|startoftranscript|>"@,
            )
            &&& files && a && b && !c ==> built is Err && error == BuildErrorView::MissingToken(
                "<|transcribe|>"@,
            )
            &&& files && a && b && c && !d ==> built is Err && error
                == BuildErrorView::MissingToken("<|translate|>"@)
            &&& files && a && b && c && d && !e ==> built is Err && error
                == BuildErrorView::MissingToken("<|endoftext|>"@)
            &&& files && a && b && c && d && e && !silence ==> built is Err && error
                == BuildErrorView::MissingNoSpeechToken
            &&& files && a && b && c && d && e && silence && built is Err ==> error
                == BuildErrorView::UnsupportedLanguage(builder.language->0)
        }),
{
}

/// A stream that is built from a configuration in text is the one that is built from what
/// the text says; sizes that fit token ids arrive as they are. Text that says nothing
/// builds none.
pub proof fn read_configurations_are_built_from(
    builder: BuilderView,
    parsed: Result<(usize, usize, usize, Seq<u32>), Seq<char>>,
    tokenizer: Tokenizer,
    ids: TokenIds,
)
    ensures
        ({
            let (vocab_size, bins, positions, suppress_tokens) = parsed->Ok_0;
            parsed is Ok && vocab_size <= u32::MAX ==> builder.built_from(
                configured(parsed),
                tokenizer,
                ids,
            ) == builder.built(
                ConfigView {
                    vocab_size: vocab_size as u32,
                    num_mel_bins: bins,
                    max_target_positions: positions,
                    suppress_tokens,
                },
                tokenizer,
                ids,
            )
        }),
        parsed is Err ==> {
            let built = builder.built_from(configured(parsed), tokenizer, ids);
            let files = !builder.quantized || builder.size == ModelSize::Tiny
                || builder.size == ModelSize::TinyEn;
            &&& built is Err
            &&& files ==> built->Err_0 == BuildErrorView::InvalidConfig(parsed->Err_0)
            &&& !files ==> built->Err_0 == BuildErrorView::QuantizedUnavailable
        },
{
}

/// A repository or revision that is named is taken, whatever else is chosen. Otherwise
/// quantized weights are taken from where they are published, and others from where the
/// checkpoint is.
pub proof fn named_sources_come_first(builder: BuilderView)
    ensures
        builder.model_id is Some ==> builder.source().0 == builder.model_id->0,
        builder.revision is Some ==> builder.source().1 == builder.revision->0,
        builder.model_id is None && builder.quantized ==> builder.source().0
            == "lmz/candle-whisper"@,
        builder.revision is None && builder.quantized ==> builder.source().1 == "main"@,
        builder.model_id is None && !builder.quantized ==> builder.source().0
            == builder.size.repository(),
        builder.revision is None && !builder.quantized ==> builder.source().1
            == builder.size.revision(),
{
}

/// The files of a checkpoint, plain and quantized.
pub proof fn files_are_named_after_the_weights(builder: BuilderView)
    ensures
        ({
            let tiny = builder.size == ModelSize::Tiny;
            let tiny_en = builder.size == ModelSize::TinyEn;
            let files = builder.files();
            &&& files is Some <==> !builder.quantized || tiny || tiny_en
            &&& !builder.quantized ==> {
                &&& files->0.config == "config.json"@
                &&& files->0.tokenizer == "tokenizer.json"@
                &&& files->0.weights == "model.safetensors"@
            }
            &&& builder.quantized && tiny ==> {
                &&& files->0.config == "config-"@ + "tiny"@ + ".json"@
                &&& files->0.tokenizer == "tokenizer-"@ + "tiny"@ + ".json"@
                &&& files->0.weights == "model-"@ + "tiny"@ + "-q80.gguf"@
            }
            &&& builder.quantized && tiny_en ==> {
                &&& files->0.config == "config-"@ + "tiny-en"@ + ".json"@
                &&& files->0.tokenizer == "tokenizer-"@ + "tiny-en"@ + ".json"@
                &&& files->0.weights == "model-"@ + "tiny-en"@ + "-q80.gguf"@
            }
        }),
{
}

/// A filterbank that was given is used, and otherwise one for 16 kHz, transforms of 400
/// samples and the bins of the model.
pub proof fn given_filterbanks_come_first(builder: BuilderView, bins: nat)
    ensures
        builder.mel_filters is Some ==> builder.filters(bins) == (FilterbankView::Given {
            weights: builder.mel_filters->0,
        }),
        builder.mel_filters is None ==> builder.filters(bins) == (FilterbankView::Computed {
            sample_rate: 16000,
            n_fft: 400,
            n_mels: bins,
        }),
{
}

/// What is chosen where nothing is: the English tiny checkpoint with plain weights, from
/// where it is published, transcription without timestamps or language, chunks of ten
/// seconds, the CPU, no reports and a computed filterbank.
pub proof fn usual_choices_are_these()
    ensures
        ({
            let usual = BuilderView::initial();
            &&& usual.model_id is None
            &&& usual.revision is None
            &&& usual.size == ModelSize::TinyEn
            &&& !usual.quantized
            &&& usual.language is None
            &&& usual.task == Task::Transcribe
            &&& !usual.timestamps
            &&& usual.max_initial_timestamp_index is None
            &&& usual.seed == 299_792_458
            &&& crate::duration::samples_in(usual.chunk_seconds) == 160_000
            &&& usual.cpu
            &&& !usual.verbose
            &&& usual.mel_filters is None
        }),
{
}

/// A text is measured by its bytes.
pub proof fn texts_are_measured_in_bytes(text: Seq<char>)
    ensures
        ({
            let ratio = crate::compression::text_ratio(text);
            measured(text, ratio.text_len, ratio.compressed_len)
        }),
{
}

/// Messages name what is wrong.
pub proof fn messages_name_what_is_wrong(name: Seq<char>)
    ensures
        BuildErrorView::MissingToken(name).message() == "no token-id for "@ + name,
        BuildErrorView::MissingNoSpeechToken.message() == "unable to find any non-speech token"@,
        BuildErrorView::UnsupportedLanguage(name).message() == "language "@ + name
            + " is not supported"@,
        BuildErrorView::QuantizedUnavailable.message()
            == "quantized weights are only available for Tiny/TinyEn"@,
        BuildErrorView::InvalidConfig(name).message() == name,
{
}

} // verus!
