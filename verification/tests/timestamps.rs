use whisper_stream::model::Task;
use whisper_stream::settings::{Settings, SpecialTokens};

// Ten tokens: text below 4, the end of the text at 4, timestamps from 7 on.
fn settings(limit: Option<u32>) -> Settings {
    Settings {
        task: Task::Transcribe,
        timestamps: true,
        max_initial_timestamp_index: limit,
        verbose: false,
        tokens: SpecialTokens {
            sot: 5,
            transcribe: 5,
            translate: 5,
            eot: 4,
            no_speech: 5,
            no_timestamps: 6,
        },
        is_multilingual: false,
        chunk_samples: 16_000,
        vocab_size: 10,
        num_mel_bins: 80,
        max_target_positions: 448,
    }
}

fn band(lo: usize, hi: usize) -> Vec<bool> {
    (0..10).map(|i| lo <= i && i < hi).collect()
}

#[test]
fn windows_open_with_a_timestamp() {
    let masks = settings(None).apply_timestamp_rules(None, &vec![5, 5]);
    assert_eq!(masks, vec![band(0, 7)]);
    let masks = settings(None).apply_timestamp_rules(Some(3), &vec![5, 3, 5]);
    assert_eq!(masks, vec![band(0, 7)]);
}

#[test]
fn windows_open_no_later_than_the_limit() {
    let masks = settings(Some(1)).apply_timestamp_rules(None, &vec![5, 5]);
    assert_eq!(masks, vec![band(0, 7), band(9, 10)]);
    let masks = settings(Some(2)).apply_timestamp_rules(None, &vec![5, 5]);
    assert_eq!(masks, vec![band(0, 7), band(10, 10)]);
    let masks = settings(Some(3)).apply_timestamp_rules(None, &vec![5, 5]);
    assert_eq!(masks, vec![band(0, 7)]);
    let masks = settings(Some(u32::MAX)).apply_timestamp_rules(None, &vec![5, 5]);
    assert_eq!(masks, vec![band(0, 7)]);
}

#[test]
fn a_single_timestamp_bars_text_and_earlier_timestamps() {
    let masks = settings(None).apply_timestamp_rules(None, &vec![5, 5, 8]);
    assert_eq!(masks, vec![band(0, 4), band(7, 8)]);
    let masks = settings(None).apply_timestamp_rules(None, &vec![5, 5, 7, 1, 8]);
    assert_eq!(masks, vec![band(0, 4), band(7, 8)]);
}

#[test]
fn a_pair_bars_a_third_timestamp() {
    let masks = settings(None).apply_timestamp_rules(None, &vec![5, 5, 7, 8]);
    assert_eq!(masks, vec![band(7, 10), band(7, 9)]);
}

#[test]
fn text_bars_timestamps_up_to_the_last() {
    let masks = settings(None).apply_timestamp_rules(None, &vec![5, 5, 7, 8, 2]);
    assert_eq!(masks, vec![band(7, 9)]);
}

#[test]
fn text_alone_bars_nothing() {
    let masks = settings(None).apply_timestamp_rules(None, &vec![5, 5, 2, 3]);
    assert!(masks.is_empty());
}

#[test]
fn the_prompt_is_not_sampled() {
    // The third token is a timestamp by its number, but belongs to the prompt.
    let masks = settings(None).apply_timestamp_rules(Some(8), &vec![5, 8, 9, 1]);
    assert!(masks.is_empty());
    let masks = settings(None).apply_timestamp_rules(Some(8), &vec![5, 8]);
    assert!(masks.is_empty());
}

#[test]
fn likelier_timestamps_bar_text() {
    let settings = settings(None);
    let (high, low) = ((-0.5f32).to_bits(), (-0.75f32).to_bits());
    assert_eq!(settings.prefer_timestamps(high, low), vec![band(0, 7)]);
    assert!(settings.prefer_timestamps(low, high).is_empty());
    assert!(settings.prefer_timestamps(high, high).is_empty());
    assert!(settings.prefer_timestamps(f32::NAN.to_bits(), low).is_empty());
}

#[test]
fn timestamps_end_the_vocabulary() {
    assert_eq!(settings(None).timestamp_range(), (7, 3));
    let mut settings = settings(None);
    settings.tokens.no_timestamps = 40;
    assert_eq!(settings.timestamp_range(), (41, 0));
}

#[test]
fn timestamps_are_taken_out_of_text() {
    assert_eq!(settings(None).without_timestamps(&vec![5, 7, 1, 9, 6, 2, 8]), vec![5, 1, 6, 2]);
}

#[test]
fn tokens_within_the_rules_run_forward_in_pairs() {
    let settings = settings(None);
    let tokens: Vec<u32> = vec![5, 5, 7, 7, 1, 2, 8, 8, 3, 9];
    for k in 2..tokens.len() {
        let masks = settings.apply_timestamp_rules(None, &tokens[..k].to_vec());
        assert!(masks.iter().all(|mask| !mask[tokens[k] as usize]), "token {k}");
    }
    let backwards = settings.apply_timestamp_rules(None, &vec![5, 5, 8, 8, 1]);
    assert!(backwards.iter().any(|mask| mask[7]));
}

#[test]
fn prompts() {
    let mut settings = settings(None);
    settings.tokens.sot = 0;
    settings.tokens.transcribe = 1;
    settings.tokens.translate = 2;
    assert_eq!(settings.prompt_tokens(None), vec![0, 1]);
    assert_eq!(settings.prompt_tokens(Some(3)), vec![0, 3, 1]);
    settings.timestamps = false;
    settings.task = Task::Translate;
    assert_eq!(settings.prompt_tokens(Some(3)), vec![0, 3, 2, 6]);
    assert_eq!(settings.prompt_tokens(None), vec![0, 2, 6]);
}
