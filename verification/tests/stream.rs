use candle_transformers::models::whisper;
use tokenizers::Tokenizer;
use whisper_stream::{
    Action, Event, ModelConfig, ModelSize, Task, TranscriptChunk, WhisperStream,
    WhisperStreamBuilder,
};

const EOT: u32 = 8;
const FIRST_TIMESTAMP: u32 = 17;

const WORDS: [&str; 8] = ["ask", "not", "what", "your", "country", "can", "do", "you"];

const SPECIAL: [&str; 9] = [
    "<|endoftext|>",
    "<|startoftranscript|>",
    "<|en|>",
    "<|th|>",
    "<|translate|>",
    "<|transcribe|>",
    "<|nocaptions|>",
    "<|nospeech|>",
    "<|notimestamps|>",
];

// Words from 0, special tokens from 8, and four timestamps from 17.
fn tokenizer(decoder: &str) -> Tokenizer {
    let words: Vec<String> =
        WORDS.iter().enumerate().map(|(i, word)| format!("\"{word}\":{i}")).collect();
    let added: Vec<String> = SPECIAL
        .iter()
        .enumerate()
        .map(|(i, name)| {
            format!(
                "{{\"id\":{},\"content\":\"{name}\",\"single_word\":false,\"lstrip\":false,\
                 \"rstrip\":false,\"normalized\":false,\"special\":true}}",
                i + 8
            )
        })
        .collect();
    let json = format!(
        "{{\"version\":\"1.0\",\"truncation\":null,\"padding\":null,\"added_tokens\":[{}],\
         \"normalizer\":null,\"pre_tokenizer\":null,\"post_processor\":null,\"decoder\":{},\
         \"model\":{{\"type\":\"WordLevel\",\"vocab\":{{{}}},\"unk_token\":\"ask\"}}}}",
        added.join(","),
        decoder,
        words.join(",")
    );
    Tokenizer::from_bytes(json.as_bytes()).unwrap()
}

fn config() -> ModelConfig {
    ModelConfig {
        vocab_size: 21,
        num_mel_bins: 2,
        max_target_positions: 10,
        suppress_tokens: vec![9],
    }
}

fn builder() -> WhisperStreamBuilder {
    WhisperStreamBuilder::new().chunk_seconds(1.0f64.to_bits())
}

fn built(builder: WhisperStreamBuilder) -> WhisperStream {
    builder.build(&config(), tokenizer("null")).ok().unwrap()
}

#[derive(Clone)]
struct Attempt {
    tokens: Vec<u32>,
    avg_logprob: f64,
    no_speech_prob: f64,
    fails: bool,
}

fn attempt(tokens: &[u32]) -> Attempt {
    Attempt { tokens: tokens.to_vec(), avg_logprob: -0.5, no_speech_prob: 0.25, fails: false }
}

// A model that plays back prepared attempts.
struct Playback {
    frames: usize,
    attempts: Vec<Attempt>,
    current: Option<Attempt>,
    sampled: usize,
    log: Vec<String>,
    masks: Vec<Vec<bool>>,
}

impl Playback {
    fn new(frames: usize, attempts: &[Attempt]) -> Self {
        Playback {
            frames,
            attempts: attempts.to_vec(),
            current: None,
            sampled: 0,
            log: vec![],
            masks: vec![],
        }
    }

    fn answer(&mut self, stream: &WhisperStream, action: &Action) -> Event {
        match action {
            Action::Mel { pcm } => {
                self.log.push(format!("mel {} {}", pcm.len(), pcm[0]));
                Event::Mel { len: self.frames * 2 + 1 }
            }
            Action::Spectrogram { bins, frames } => {
                self.log.push(format!("spectrogram {bins} {frames}"));
                Event::Done
            }
            Action::DetectLanguage => {
                self.log.push("language".to_string());
                let id = stream.tokenizer().token_to_id("<|th|>").unwrap();
                Event::Language { token: id }
            }
            Action::Window { seek, size } => {
                self.log.push(format!("window {seek} {size}"));
                Event::Done
            }
            Action::Encode { temperature, failure } => {
                self.log.push(format!("encode {temperature} {failure:?}"));
                let attempt = self.attempts.remove(0);
                self.sampled = 0;
                let fails = attempt.fails;
                self.current = Some(attempt);
                if fails {
                    Event::Failed { message: format!("attempt {temperature} failed") }
                } else {
                    Event::Done
                }
            }
            Action::Forward { tokens, first, no_speech, masks, timestamps } => {
                self.log.push(format!("forward {tokens:?}"));
                assert_eq!(*first, self.sampled == 0);
                assert_eq!(*no_speech, if *first { Some(14) } else { None });
                self.masks = masks.clone();
                let attempt = self.current.as_ref().unwrap();
                Event::Forwarded {
                    no_speech_prob: no_speech.map(|_| attempt.no_speech_prob.to_bits()),
                    logprobs: timestamps.map(|range| {
                        assert_eq!(range, (17, 4));
                        (2.0f32.to_bits(), 1.0f32.to_bits())
                    }),
                }
            }
            Action::Pick { masks, temperature } => {
                self.masks.extend(masks.iter().cloned());
                let token = self.current.as_ref().unwrap().tokens[self.sampled];
                self.sampled += 1;
                assert!(self.masks.iter().all(|mask| !mask[token as usize]), "token {token}");
                if *temperature == 0 {
                    let scores = (0..21)
                        .map(|i| if i == token { 3.0f32 } else { -3.0 })
                        .map(|score: f32| score.to_bits())
                        .collect();
                    Event::Scores { scores }
                } else {
                    Event::Sampled { token }
                }
            }
            Action::Score { token } => {
                self.log.push(format!("score {token}"));
                Event::Prob { prob: (1.0 / (1.0 + *token as f64)).to_bits() }
            }
            Action::Text { tokens } => {
                self.log.push(format!("text {tokens:?}"));
                let outcome = stream.tokenizer().decode(tokens, true).map_err(|e| e.to_string());
                Event::Text { outcome }
            }
            Action::Average { probs, count } => {
                let probs: Vec<f64> = probs.iter().map(|prob| f64::from_bits(*prob)).collect();
                self.log.push(format!("average {probs:?} {count}"));
                Event::Average {
                    avg_logprob: self.current.as_ref().unwrap().avg_logprob.to_bits(),
                }
            }
            Action::Reset => {
                self.log.push("reset".to_string());
                Event::Done
            }
            Action::Finished { .. } | Action::Failed { .. } => unreachable!(),
        }
    }

    fn finish(
        &mut self,
        stream: &mut WhisperStream,
        mut action: Action,
    ) -> Result<Vec<TranscriptChunk>, String> {
        loop {
            match action {
                Action::Finished { chunks } => return Ok(chunks),
                Action::Failed { message } => return Err(message),
                _ => {}
            }
            let event = self.answer(stream, &action);
            assert!(stream.is_expected(&event));
            action = stream.resume(event);
        }
    }

    fn feed(
        &mut self,
        stream: &mut WhisperStream,
        pcm: &[u32],
    ) -> Result<Vec<TranscriptChunk>, String> {
        assert!(stream.accepts(pcm.len()));
        let action = stream.feed_pcm(pcm);
        self.finish(stream, action)
    }

    fn flush(&mut self, stream: &mut WhisperStream) -> Result<Vec<TranscriptChunk>, String> {
        let action = stream.flush();
        self.finish(stream, action)
    }
}

fn texts(chunks: &[TranscriptChunk]) -> Vec<&str> {
    chunks.iter().map(|chunk| chunk.text.as_str()).collect()
}

#[test]
fn one_chunk_from_audio_to_text() {
    let mut stream = built(builder());
    let mut model = Playback::new(100, &[attempt(&[0, 1, EOT])]);
    let chunks = model.feed(&mut stream, &vec![5; 16_000]).unwrap();
    assert_eq!(texts(&chunks), vec!["ask not"]);
    assert_eq!(chunks[0].start, 0);
    assert_eq!(chunks[0].duration, 16_000);
    assert_eq!(f64::from_bits(chunks[0].avg_logprob), -0.5);
    assert_eq!(f64::from_bits(chunks[0].no_speech_prob), 0.25);
    assert_eq!(
        model.log,
        vec![
            "mel 16000 5",
            "spectrogram 2 100",
            "window 0 100",
            "encode 0 None",
            "forward [9, 13, 16]",
            "score 0",
            "forward [9, 13, 16, 0]",
            "score 1",
            "forward [9, 13, 16, 0, 1]",
            "score 8",
            "average [1.0, 0.5, 0.1111111111111111] 3",
            "reset",
        ]
    );
}

#[test]
fn nothing_happens_before_a_chunk_is_full() {
    let mut stream = built(builder());
    let mut model = Playback::new(100, &[]);
    for _ in 0..9 {
        assert!(model.feed(&mut stream, &vec![1; 1_600]).unwrap().is_empty());
    }
    assert!(model.log.is_empty());
}

#[test]
fn the_rest_comes_with_a_flush() {
    let mut stream = built(builder());
    let mut model = Playback::new(100, &[attempt(&[2, EOT]), attempt(&[3, EOT])]);
    let chunks = model.feed(&mut stream, &vec![1; 20_000]).unwrap();
    assert_eq!(texts(&chunks), vec!["what"]);
    let chunks = model.flush(&mut stream).unwrap();
    assert_eq!(texts(&chunks), vec!["your"]);
    assert_eq!(chunks[0].start, 16_000);
    assert!(model.log.contains(&"mel 4000 1".to_string()));
    assert!(model.flush(&mut stream).unwrap().is_empty());
}

#[test]
fn pieces_do_not_matter() {
    let pcm: Vec<u32> = (0..40_000).collect();
    let attempts = [attempt(&[0, EOT]), attempt(&[1, EOT])];
    let mut whole = Playback::new(100, &attempts);
    let mut stream = built(builder());
    let expected: Vec<String> = whole
        .feed(&mut stream, &pcm)
        .unwrap()
        .iter()
        .map(|chunk| format!("{chunk:?}"))
        .collect();
    assert_eq!(expected.len(), 2);
    for size in [1_000, 7_777, 16_000, 39_999] {
        let mut parts = Playback::new(100, &attempts);
        let mut stream = built(builder());
        let mut chunks = vec![];
        for block in pcm.chunks(size) {
            for chunk in parts.feed(&mut stream, block).unwrap() {
                chunks.push(format!("{chunk:?}"));
            }
        }
        assert_eq!(chunks, expected, "blocks of {size}");
        assert_eq!(parts.log, whole.log);
    }
}

#[test]
fn samples_reach_the_model_in_order() {
    let mut stream = built(builder());
    let pcm: Vec<u32> = (0..50_000).collect();
    let mut seen: Vec<u32> = vec![];
    let mut model =
        Playback::new(10, &[attempt(&[EOT]), attempt(&[EOT]), attempt(&[EOT]), attempt(&[EOT])]);
    for block in pcm.chunks(12_345) {
        let mut action = stream.feed_pcm(block);
        loop {
            if let Action::Mel { pcm } = &action {
                assert_eq!(pcm.len(), 16_000);
                seen.extend(pcm);
            }
            if matches!(action, Action::Finished { .. }) {
                break;
            }
            let event = model.answer(&stream, &action);
            action = stream.resume(event);
        }
    }
    if let Action::Mel { pcm } = stream.flush() {
        seen.extend(pcm);
    }
    assert_eq!(seen, pcm);
}

#[test]
fn long_spectrograms_are_cut_into_windows() {
    let mut stream = built(builder());
    let mut model = Playback::new(
        7_000,
        &[attempt(&[0, EOT]), attempt(&[1, EOT]), attempt(&[2, EOT])],
    );
    let chunks = model.feed(&mut stream, &vec![0; 16_000]).unwrap();
    let spans: Vec<(u128, usize)> =
        chunks.iter().map(|chunk| (chunk.start, chunk.duration)).collect();
    assert_eq!(spans, vec![(0, 480_000), (480_000, 480_000), (960_000, 160_000)]);
    let windows: Vec<&String> =
        model.log.iter().filter(|line| line.starts_with("window")).collect();
    assert_eq!(windows, vec!["window 0 3000", "window 3000 3000", "window 6000 1000"]);
}

#[test]
fn empty_spectrograms_have_no_windows() {
    let mut stream = built(builder());
    let mut model = Playback::new(0, &[]);
    assert!(model.feed(&mut stream, &vec![9; 16_000]).unwrap().is_empty());
    assert_eq!(model.log, vec!["mel 16000 9", "spectrogram 2 0", "reset"]);
}

#[test]
fn doubtful_attempts_are_repeated_at_higher_temperatures() {
    let doubtful = Attempt { avg_logprob: -1.5, ..attempt(&[0, EOT]) };
    let mut stream = built(builder());
    let mut model = Playback::new(100, &[doubtful.clone(), doubtful, attempt(&[1, 2, EOT])]);
    let chunks = model.feed(&mut stream, &vec![0; 16_000]).unwrap();
    assert_eq!(texts(&chunks), vec!["not what"]);
    let encodes: Vec<&String> =
        model.log.iter().filter(|line| line.starts_with("encode")).collect();
    assert_eq!(encodes, vec!["encode 0 None", "encode 1 None", "encode 2 None"]);
}

#[test]
fn the_sixth_attempt_is_taken_as_it_is() {
    let doubtful = Attempt { avg_logprob: -1.5, ..attempt(&[0, EOT]) };
    let mut attempts = vec![doubtful; 5];
    attempts.push(Attempt { avg_logprob: -9.0, ..attempt(&[3, EOT]) });
    let mut stream = built(builder());
    let mut model = Playback::new(100, &attempts);
    let chunks = model.feed(&mut stream, &vec![0; 16_000]).unwrap();
    assert_eq!(texts(&chunks), vec!["your"]);
    assert!(model.log.contains(&"encode 5 None".to_string()));
}

#[test]
fn repetition_is_tried_again() {
    let config = ModelConfig { max_target_positions: 400, ..config() };
    let mut stream = builder().build(&config, tokenizer("null")).ok().unwrap();
    let mut tokens = vec![4; 60];
    tokens.push(EOT);
    let mut model = Playback::new(100, &[attempt(&tokens), attempt(&[4, EOT])]);
    let chunks = model.feed(&mut stream, &vec![0; 16_000]).unwrap();
    assert_eq!(texts(&chunks), vec!["country"]);
}

#[test]
fn silence_is_dropped() {
    let silent = Attempt { avg_logprob: -1.5, no_speech_prob: 0.9, ..attempt(&[0, EOT]) };
    let mut stream = built(builder());
    let mut model = Playback::new(4_000, &[silent, attempt(&[1, EOT])]);
    let chunks = model.feed(&mut stream, &vec![0; 16_000]).unwrap();
    assert_eq!(texts(&chunks), vec!["not"]);
    assert_eq!(chunks[0].start, 480_000);
}

#[test]
fn failed_attempts_are_reported_when_asked_for() {
    let failed = Attempt { fails: true, ..attempt(&[]) };
    for verbose in [false, true] {
        let mut stream = built(builder().verbose(verbose));
        let mut model = Playback::new(100, &[failed.clone(), attempt(&[5, EOT])]);
        let chunks = model.feed(&mut stream, &vec![0; 16_000]).unwrap();
        assert_eq!(texts(&chunks), vec!["can"]);
        let expected = if verbose {
            "encode 1 Some(\"attempt 0 failed\")"
        } else {
            "encode 1 None"
        };
        assert!(model.log.contains(&expected.to_string()));
    }
}

#[test]
fn six_failed_attempts_give_the_chunk_up() {
    let failed = Attempt { fails: true, ..attempt(&[]) };
    let mut attempts = vec![failed; 6];
    attempts.push(attempt(&[6, EOT]));
    let mut stream = built(builder());
    let mut model = Playback::new(100, &attempts);
    let error = model.feed(&mut stream, &vec![0; 33_000]).unwrap_err();
    assert_eq!(error, "attempt 5 failed");
    let chunks = model.feed(&mut stream, &[]).unwrap();
    assert_eq!(texts(&chunks), vec!["do"]);
    assert_eq!(chunks[0].start, 16_000);
}

#[test]
fn a_failed_window_fails_at_once() {
    let mut stream = built(builder());
    let action = stream.feed_pcm(&vec![0; 16_000]);
    assert!(matches!(action, Action::Mel { .. }));
    assert!(!stream.accepts(1));
    let action = stream.resume(Event::Mel { len: 20 });
    assert!(matches!(action, Action::Spectrogram { bins: 2, frames: 10 }));
    let action = stream.resume(Event::Done);
    assert!(matches!(action, Action::Window { seek: 0, size: 10 }));
    let action = stream.resume(Event::Failed { message: "narrow".to_string() });
    assert!(matches!(action, Action::Failed { message } if message == "narrow"));
    assert!(stream.accepts(1));
}

#[test]
fn the_language_is_detected_once() {
    let mut stream = built(builder().model_size(ModelSize::Tiny));
    let mut model = Playback::new(100, &[attempt(&[0, EOT]), attempt(&[1, EOT])]);
    model.feed(&mut stream, &vec![0; 32_000]).unwrap();
    let detections = model.log.iter().filter(|line| *line == "language").count();
    assert_eq!(detections, 1);
    assert!(model.log.contains(&"forward [9, 11, 13, 16]".to_string()));
}

#[test]
fn a_language_that_is_set_is_not_detected() {
    let mut stream =
        built(builder().model_size(ModelSize::Tiny).language("en").task(Task::Translate));
    let mut model = Playback::new(100, &[attempt(&[0, EOT])]);
    model.feed(&mut stream, &vec![0; 16_000]).unwrap();
    assert!(!model.log.contains(&"language".to_string()));
    assert!(model.log.contains(&"forward [9, 10, 12, 16]".to_string()));
}

#[test]
fn sampling_stops_when_enough_tokens_are_sampled() {
    let mut stream = built(builder());
    let mut model = Playback::new(100, &[attempt(&[0, 1, 2, 3, 4, 5])]);
    let chunks = model.feed(&mut stream, &vec![0; 16_000]).unwrap();
    assert_eq!(texts(&chunks), vec!["ask not what your country"]);
    assert!(model.log.contains(
        &"average [1.0, 0.5, 0.3333333333333333, 0.25, 0.2] 5".to_string()
    ));
    assert!(model.log.last().unwrap() == "reset");
}

#[test]
fn sampling_stops_when_there_is_no_more_room() {
    let config = ModelConfig { max_target_positions: 3, ..config() };
    let mut stream = builder().build(&config, tokenizer("null")).ok().unwrap();
    let mut model = Playback::new(100, &[attempt(&[0, 1])]);
    let chunks = model.feed(&mut stream, &vec![0; 16_000]).unwrap();
    assert_eq!(texts(&chunks), vec!["ask"]);
    assert!(model.log.contains(&"average [1.0] 1".to_string()));
}

#[test]
fn no_tokens_are_sampled_without_room() {
    let config = ModelConfig { max_target_positions: 1, ..config() };
    let mut stream = builder().build(&config, tokenizer("null")).ok().unwrap();
    let mut model = Playback::new(100, &[attempt(&[])]);
    let chunks = model.feed(&mut stream, &vec![0; 16_000]).unwrap();
    assert_eq!(texts(&chunks), vec![""]);
    assert!(f64::from_bits(chunks[0].no_speech_prob).is_nan());
    assert_eq!(chunks[0].avg_logprob, 0.0f64.to_bits());
    assert!(!model.log.iter().any(|line| line.starts_with("average")));
}

#[test]
fn time_passes_while_chunks_fail() {
    let mut stream = built(builder());
    let failed = Attempt { fails: true, ..attempt(&[]) };
    let mut attempts = vec![failed; 12];
    attempts.push(attempt(&[0, EOT]));
    attempts.push(attempt(&[1, EOT]));
    let mut model = Playback::new(100, &attempts);
    assert!(model.feed(&mut stream, &vec![0; 16_000]).is_err());
    assert!(model.feed(&mut stream, &vec![0; 1_000]).unwrap().is_empty());
    assert!(model.flush(&mut stream).is_err());
    let chunks = model.feed(&mut stream, &vec![0; 32_000]).unwrap();
    assert_eq!(chunks[0].start, 17_000);
    assert_eq!(chunks[1].start, 33_000);
}

#[test]
fn timestamps_steer_the_sampling_and_stay_out_of_the_text() {
    let mut stream = built(builder().timestamps(true).max_initial_timestamp_index(1));
    let mut model = Playback::new(
        100,
        &[attempt(&[FIRST_TIMESTAMP, FIRST_TIMESTAMP + 1, FIRST_TIMESTAMP + 2])],
    );
    let mut action = stream.feed_pcm(&vec![0; 16_000]);
    let mut steps = 0;
    while steps < 2 {
        let event = model.answer(&stream, &action);
        if matches!(action, Action::Score { .. }) {
            steps += 1;
        }
        action = stream.resume(event);
    }
    // A pair is complete: the next token is below the timestamps.
    match &action {
        Action::Forward { tokens, masks, .. } => {
            assert_eq!(tokens, &vec![9, 13, 17, 18]);
            assert_eq!(masks.len(), 2);
            assert!(masks[0][17..].iter().all(|masked| *masked));
            assert!(masks[0][..17].iter().all(|masked| !*masked));
        }
        other => panic!("{other:?}"),
    }
    let action = stream.resume(Event::Failed { message: "stop".to_string() });
    assert!(matches!(action, Action::Encode { temperature: 1, .. }));
}

#[test]
fn likelier_timestamps_leave_only_timestamps() {
    let mut stream = built(builder().timestamps(true));
    let mut model = Playback::new(100, &[attempt(&[FIRST_TIMESTAMP])]);
    let mut action = stream.feed_pcm(&vec![0; 16_000]);
    while !matches!(action, Action::Pick { .. }) {
        let event = model.answer(&stream, &action);
        action = stream.resume(event);
    }
    match action {
        Action::Pick { masks, temperature } => {
            assert_eq!(temperature, 0);
            assert_eq!(masks.len(), 2);
            assert!((0..21).all(|i| masks[0][i] == (i < 17)));
            // The token that the model bars, and the one that turns timestamps off.
            assert!((0..21).all(|i| masks[1][i] == (i == 9 || i == 16)));
        }
        other => panic!("{other:?}"),
    }
}

#[test]
fn byte_level_text_is_decoded_here() {
    let decoder =
        "{\"type\":\"ByteLevel\",\"add_prefix_space\":true,\"trim_offsets\":true,\"use_regex\":true}";
    let mut stream = builder().build(&config(), tokenizer(decoder)).ok().unwrap();
    let mut model = Playback::new(100, &[attempt(&[0, 1, EOT])]);
    let chunks = model.feed(&mut stream, &vec![0; 16_000]).unwrap();
    assert_eq!(texts(&chunks), vec!["asknot"]);
    assert!(!model.log.iter().any(|line| line.starts_with("text")));
}

#[test]
fn other_text_is_decoded_by_the_caller() {
    let mut stream = builder().build(&config(), tokenizer("{\"type\":\"Fuse\"}")).ok().unwrap();
    let mut model = Playback::new(100, &[attempt(&[0, 1, EOT])]);
    let chunks = model.feed(&mut stream, &vec![0; 16_000]).unwrap();
    assert_eq!(texts(&chunks), vec!["asknot"]);
    assert!(model.log.contains(&"text [9, 13, 16, 0, 1, 8]".to_string()));
}

#[test]
fn text_that_cannot_be_decoded_fails_the_attempt() {
    let mut stream =
        builder().verbose(true).build(&config(), tokenizer("{\"type\":\"Fuse\"}")).ok().unwrap();
    let mut model = Playback::new(100, &[attempt(&[0, EOT])]);
    let mut action = stream.feed_pcm(&vec![0; 16_000]);
    while !matches!(action, Action::Text { .. }) {
        let event = model.answer(&stream, &action);
        action = stream.resume(event);
    }
    let action = stream.resume(Event::Text { outcome: Err("garbled".to_string()) });
    match action {
        Action::Encode { temperature, failure } => {
            assert_eq!(temperature, 1);
            assert_eq!(failure.as_deref(), Some("garbled"));
        }
        other => panic!("{other:?}"),
    }
}

#[test]
fn unexpected_events_are_told_apart() {
    let mut stream = built(builder());
    assert!(!stream.is_expected(&Event::Done));
    stream.feed_pcm(&vec![0; 16_000]);
    assert!(!stream.is_expected(&Event::Done));
    assert!(stream.is_expected(&Event::Mel { len: 6 }));
    assert!(!stream.is_expected(&Event::Mel { len: usize::MAX }));
    stream.resume(Event::Mel { len: 6 });
    assert!(stream.is_expected(&Event::Done));
    assert!(stream.is_expected(&Event::Failed { message: String::new() }));
    assert!(!stream.is_expected(&Event::Language { token: 1 }));
}

#[test]
fn the_dimensions_are_those_of_the_model() {
    assert_eq!(whisper_stream::settings::SAMPLE_RATE, whisper::SAMPLE_RATE);
    assert_eq!(whisper_stream::settings::N_FFT, whisper::N_FFT);
    assert_eq!(whisper_stream::settings::HOP_LENGTH, whisper::HOP_LENGTH);
    assert_eq!(whisper_stream::settings::N_FRAMES, whisper::N_FRAMES);
    assert_eq!(whisper_stream::decoding::ATTEMPTS, whisper::TEMPERATURES.len());
    assert_eq!(whisper::TEMPERATURES[0], 0.0);
    assert!(whisper::TEMPERATURES[1..].iter().all(|t| *t > 0.0));
    assert_eq!(whisper::NO_TIMESTAMPS_TOKEN, SPECIAL[8]);
    assert_eq!(whisper::SOT_TOKEN, SPECIAL[1]);
    assert_eq!(whisper::TRANSCRIBE_TOKEN, SPECIAL[5]);
    assert_eq!(whisper::TRANSLATE_TOKEN, SPECIAL[4]);
    assert_eq!(whisper::EOT_TOKEN, SPECIAL[0]);
    assert_eq!(whisper::NO_SPEECH_TOKENS, [SPECIAL[6], SPECIAL[7]]);
}
