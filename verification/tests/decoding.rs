use whisper_stream::compression::CompressionRatio;
use whisper_stream::decoding::{
    pick_greedy, DecodingResult, LOGPROB_THRESHOLD, NO_SPEECH_THRESHOLD,
};

fn bits(scores: &[f32]) -> Vec<u32> {
    scores.iter().map(|score| score.to_bits()).collect()
}

fn result(avg_logprob: f64, no_speech_prob: f64, ratio: (usize, usize), step: usize) -> DecodingResult {
    DecodingResult {
        tokens: vec![],
        text: String::new(),
        avg_logprob: avg_logprob.to_bits(),
        no_speech_prob: no_speech_prob.to_bits(),
        temperature: step,
        compression_ratio: CompressionRatio { text_len: ratio.0, compressed_len: ratio.1 },
    }
}

#[test]
fn thresholds_are_those_of_the_model() {
    assert_eq!(
        f64::from_bits(NO_SPEECH_THRESHOLD),
        candle_transformers::models::whisper::NO_SPEECH_THRESHOLD
    );
    assert_eq!(
        f64::from_bits(LOGPROB_THRESHOLD),
        candle_transformers::models::whisper::LOGPROB_THRESHOLD
    );
}

#[test]
fn greedy_takes_the_highest_score() {
    assert_eq!(pick_greedy(&bits(&[-1.0, 3.5, 2.0])), 1);
    assert_eq!(pick_greedy(&bits(&[f32::NEG_INFINITY])), 0);
    assert_eq!(pick_greedy(&bits(&[-5.0, f32::NEG_INFINITY, -4.0, -4.5])), 2);
}

#[test]
fn greedy_takes_the_last_of_equals() {
    assert_eq!(pick_greedy(&bits(&[2.0, 1.0, 2.0, 0.0])), 2);
    assert_eq!(pick_greedy(&bits(&[0.0, -0.0])), 0);
    assert_eq!(pick_greedy(&bits(&[-0.0, 0.0])), 1);
    assert_eq!(pick_greedy(&bits(&[f32::NEG_INFINITY, f32::NEG_INFINITY])), 1);
}

#[test]
fn greedy_agrees_with_max_by() {
    let mut state = 7u64;
    for _ in 0..500 {
        let scores: Vec<f32> = (0..40)
            .map(|_| {
                state = state.wrapping_mul(6364136223846793005).wrapping_add(1442695040888963407);
                f32::from_bits((state >> 32) as u32)
            })
            .collect();
        let best = scores
            .iter()
            .enumerate()
            .max_by(|(_, u), (_, v)| u.total_cmp(v))
            .map(|(i, _)| i as u32)
            .unwrap();
        assert_eq!(pick_greedy(&bits(&scores)), best);
    }
}

#[test]
fn greedy_keeps_to_the_mask() {
    let mask = [true, false, true, true];
    let scores: Vec<f32> = mask
        .iter()
        .map(|&masked| if masked { f32::NEG_INFINITY } else { -80.0 })
        .collect();
    assert_eq!(pick_greedy(&bits(&scores)), 1);
}

#[test]
fn good_decodings_are_settled() {
    assert!(result(-0.5, 0.1, (10, 10), 0).is_settled());
    assert!(result(-1.0, 0.1, (24, 10), 0).is_settled());
}

#[test]
fn bad_decodings_are_not_settled() {
    assert!(!result(-1.1, 0.1, (10, 10), 0).is_settled());
    assert!(!result(-0.5, 0.1, (25, 10), 0).is_settled());
    assert!(!result(-1.1, 0.6, (10, 10), 4).is_settled());
}

#[test]
fn silence_and_the_last_attempt_settle() {
    assert!(result(-1.1, 0.7, (10, 10), 0).is_settled());
    assert!(result(-1.1, 0.1, (25, 10), 5).is_settled());
}

#[test]
fn missing_numbers_do_not_pass_thresholds() {
    assert!(result(f64::NAN, f64::NAN, (10, 10), 0).is_settled());
    assert!(!result(f64::NAN, f64::NAN, (10, 10), 0).is_silent());
    assert!(!result(-2.0, f64::NAN, (10, 10), 0).is_settled());
}

#[test]
fn silence_needs_both_signs() {
    assert!(result(-1.5, 0.9, (10, 10), 0).is_silent());
    assert!(!result(-0.5, 0.9, (10, 10), 0).is_silent());
    assert!(!result(-1.5, 0.6, (10, 10), 0).is_silent());
}
