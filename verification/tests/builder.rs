use tokenizers::Tokenizer;
use whisper_stream::builder::{
    find_tokens, resolve_tokens, suppression_mask, Filterbank, TokenIds,
};
use whisper_stream::config::{model_config, read_config};
use whisper_stream::tokenizer::token_id;
use whisper_stream::{Action, BuildError, Event, ModelConfig, ModelSize, Task, WhisperStreamBuilder};

const NAMES: [&str; 9] = [
    "<|endoftext|>",
    "<|startoftranscript|>",
    "<|en|>",
    "<|translate|>",
    "<|transcribe|>",
    "<|nocaptions|>",
    "<|nospeech|>",
    "<|notimestamps|>",
    "hello",
];

fn tokenizer(names: &[&str]) -> Tokenizer {
    let vocab: Vec<String> =
        names.iter().enumerate().map(|(i, name)| format!("\"{name}\":{i}")).collect();
    let json = format!(
        "{{\"version\":\"1.0\",\"truncation\":null,\"padding\":null,\"added_tokens\":[],\
         \"normalizer\":null,\"pre_tokenizer\":null,\"post_processor\":null,\"decoder\":null,\
         \"model\":{{\"type\":\"WordLevel\",\"vocab\":{{{}}},\"unk_token\":\"hello\"}}}}",
        vocab.join(",")
    );
    Tokenizer::from_bytes(json.as_bytes()).unwrap()
}

fn without(name: &str) -> Tokenizer {
    let names: Vec<&str> = NAMES.iter().copied().filter(|other| *other != name).collect();
    tokenizer(&names)
}

fn config() -> ModelConfig {
    ModelConfig {
        vocab_size: 9,
        num_mel_bins: 80,
        max_target_positions: 448,
        suppress_tokens: vec![3, 8],
    }
}

fn error(builder: WhisperStreamBuilder, tokenizer: Tokenizer) -> BuildError {
    match builder.build(&config(), tokenizer) {
        Ok(_) => panic!("built"),
        Err(error) => error,
    }
}

#[test]
fn tokens_are_looked_up() {
    let tokenizer = tokenizer(&NAMES);
    assert_eq!(token_id(&tokenizer, "<|en|>").unwrap(), 2);
    assert_eq!(token_id(&tokenizer, "hello").unwrap(), 8);
    let error = token_id(&tokenizer, "<|xx|>").unwrap_err();
    assert_eq!(error.message(), "no token-id for <|xx|>");
}

#[test]
fn all_tokens_are_found() {
    let ids = find_tokens(&tokenizer(&NAMES), Some("en"));
    assert_eq!(ids.eot, Some(0));
    assert_eq!(ids.sot, Some(1));
    assert_eq!(ids.language, Some(2));
    assert_eq!(ids.translate, Some(3));
    assert_eq!(ids.transcribe, Some(4));
    assert_eq!(ids.no_captions, Some(5));
    assert_eq!(ids.no_speech, Some(6));
    assert_eq!(ids.no_timestamps, Some(7));
    assert_eq!(find_tokens(&tokenizer(&NAMES), Some("th")).language, None);
    assert_eq!(find_tokens(&tokenizer(&NAMES), None).language, None);
}

fn all_ids() -> TokenIds {
    TokenIds {
        no_timestamps: Some(10),
        sot: Some(11),
        transcribe: Some(12),
        translate: Some(13),
        eot: Some(14),
        no_captions: Some(15),
        no_speech: Some(16),
        language: Some(17),
    }
}

#[test]
fn tokens_are_settled() {
    let (tokens, language) = resolve_tokens(all_ids(), Some("th")).unwrap();
    assert_eq!(
        (tokens.no_timestamps, tokens.sot, tokens.transcribe, tokens.translate, tokens.eot),
        (10, 11, 12, 13, 14)
    );
    assert_eq!(tokens.no_speech, 15);
    assert_eq!(language, Some(17));
    let (_, language) = resolve_tokens(all_ids(), None).unwrap();
    assert_eq!(language, None);
}

#[test]
fn the_second_no_speech_token_stands_in() {
    let ids = TokenIds { no_captions: None, ..all_ids() };
    assert_eq!(resolve_tokens(ids, None).unwrap().0.no_speech, 16);
}

#[test]
fn the_first_missing_token_is_named() {
    let ids = TokenIds { sot: None, eot: None, ..all_ids() };
    assert_eq!(
        resolve_tokens(ids, None).unwrap_err().message(),
        "no token-id for <|startoftranscript|>"
    );
}

#[test]
fn each_missing_token_is_an_error() {
    for name in [
        "<|notimestamps|>",
        "<|startoftranscript|>",
        "<|transcribe|>",
        "<|translate|>",
        "<|endoftext|>",
    ] {
        let error = error(WhisperStreamBuilder::new(), without(name));
        assert!(matches!(&error, BuildError::MissingToken(token) if token == name));
        assert_eq!(error.message(), format!("no token-id for {name}"));
    }
}

#[test]
fn a_tokenizer_without_no_speech_tokens_is_an_error() {
    let names: Vec<&str> = NAMES
        .iter()
        .copied()
        .filter(|name| *name != "<|nocaptions|>" && *name != "<|nospeech|>")
        .collect();
    let error = error(WhisperStreamBuilder::new(), tokenizer(&names));
    assert!(matches!(error, BuildError::MissingNoSpeechToken));
    assert_eq!(error.message(), "unable to find any non-speech token");
    assert!(WhisperStreamBuilder::new().build(&config(), without("<|nocaptions|>")).is_ok());
}

#[test]
fn an_unknown_language_is_an_error_of_multilingual_models() {
    let builder = WhisperStreamBuilder::new().model_size(ModelSize::Tiny).language("th");
    let error = error(builder, tokenizer(&NAMES));
    assert!(matches!(&error, BuildError::UnsupportedLanguage(code) if code == "th"));
    assert_eq!(error.message(), "language th is not supported");
    let builder = WhisperStreamBuilder::new().model_size(ModelSize::TinyEn).language("th");
    assert!(builder.build(&config(), tokenizer(&NAMES)).is_ok());
}

#[test]
fn official_repositories() {
    let builder = WhisperStreamBuilder::new();
    assert_eq!(
        builder.repository(),
        ("openai/whisper-tiny.en".to_string(), "refs/pr/15".to_string())
    );
    let builder = builder.model_size(ModelSize::LargeV3);
    assert_eq!(
        builder.repository(),
        ("openai/whisper-large-v3".to_string(), "main".to_string())
    );
    let files = builder.artifacts().unwrap();
    assert_eq!(files.config, "config.json");
    assert_eq!(files.tokenizer, "tokenizer.json");
    assert_eq!(files.weights, "model.safetensors");
}

#[test]
fn named_repositories_come_first() {
    let builder = WhisperStreamBuilder::new().model_id("me/mine").quantized(true);
    assert_eq!(builder.repository(), ("me/mine".to_string(), "main".to_string()));
    let builder = builder.revision("v2").quantized(false);
    assert_eq!(builder.repository(), ("me/mine".to_string(), "v2".to_string()));
}

#[test]
fn quantized_weights_have_their_own_files() {
    let builder = WhisperStreamBuilder::new().quantized(true);
    assert!(builder.is_quantized());
    assert_eq!(builder.repository(), ("lmz/candle-whisper".to_string(), "main".to_string()));
    let files = builder.artifacts().unwrap();
    assert_eq!(files.config, "config-tiny-en.json");
    assert_eq!(files.tokenizer, "tokenizer-tiny-en.json");
    assert_eq!(files.weights, "model-tiny-en-q80.gguf");
}

#[test]
fn quantized_weights_exist_for_tiny_only() {
    let builder = WhisperStreamBuilder::new().model_size(ModelSize::Base).quantized(true);
    let error = builder.artifacts().unwrap_err();
    assert!(matches!(error, BuildError::QuantizedUnavailable));
    assert_eq!(error.message(), "quantized weights are only available for Tiny/TinyEn");
}

#[test]
fn usual_choices() {
    let builder = WhisperStreamBuilder::default();
    assert!(!builder.is_quantized());
    assert!(builder.is_cpu());
    assert_eq!(builder.sampling_seed(), 299_792_458);
    assert!(matches!(
        builder.filterbank(80),
        Filterbank::Computed { sample_rate: 16_000, n_fft: 400, n_mels: 80 }
    ));
    let builder = builder.cpu(false).seed(7);
    assert!(!builder.is_cpu());
    assert_eq!(builder.sampling_seed(), 7);
}

fn given(builder: &WhisperStreamBuilder) -> Vec<u32> {
    match builder.filterbank(80) {
        Filterbank::Given { weights } => weights,
        other => panic!("{other:?}"),
    }
}

#[test]
fn filterbanks_are_little_endian() {
    let numbers = [1.0f32, -0.25, 3.5e-20];
    let bytes: Vec<u8> = numbers.iter().flat_map(|number| number.to_le_bytes()).collect();
    let builder = WhisperStreamBuilder::new().mel_filters_from_bytes(&bytes);
    let expected: Vec<u32> = numbers.iter().map(|number| number.to_bits()).collect();
    assert_eq!(given(&builder), expected);
    let builder = builder.mel_filters_from_bytes(&[1, 2, 3, 4]);
    assert_eq!(given(&builder), vec![0x0403_0201]);
    let builder = builder.mel_filters_from_bytes(&[]);
    assert!(given(&builder).is_empty());
}

fn config_json(vocab_size: &str, more: &str) -> String {
    format!(
        "{{\"num_mel_bins\":80,\"max_source_positions\":1500,\"d_model\":384,\
         \"encoder_attention_heads\":6,\"encoder_layers\":4,\"vocab_size\":{vocab_size},\
         \"max_target_positions\":448,\"decoder_attention_heads\":6,\
         \"decoder_layers\":4{more}}}"
    )
}

#[test]
fn configurations_are_read() {
    let json = config_json("51864", ",\"suppress_tokens\":[1,7],\"torch_dtype\":\"float32\"");
    let config = read_config(&json).unwrap();
    assert_eq!(config.vocab_size, 51_864);
    assert_eq!(config.num_mel_bins, 80);
    assert_eq!(config.max_target_positions, 448);
    assert_eq!(config.suppress_tokens, vec![1, 7]);
    assert!(read_config(&config_json("9", "")).unwrap().suppress_tokens.is_empty());
}

#[test]
fn vocabularies_have_as_many_tokens_as_ids_can_tell() {
    let config = model_config(Ok((0x1_0000_0005, 80, 448, vec![2]))).unwrap();
    assert_eq!(config.vocab_size, 5);
    assert_eq!(config.num_mel_bins, 80);
    assert_eq!(config.max_target_positions, 448);
    assert_eq!(config.suppress_tokens, vec![2]);
    assert_eq!(model_config(Err("why".to_string())).err().unwrap().message(), "why");
}

#[test]
fn unreadable_configurations_are_an_error() {
    for text in ["", "{}", "[1", &config_json("-1", "")] {
        assert!(matches!(read_config(text), Err(BuildError::InvalidConfig(_))), "{text}");
    }
    let error = read_config("{}").err().unwrap();
    assert_eq!(error.message(), "missing field `num_mel_bins` at line 1 column 2");
}

#[test]
fn streams_are_built_from_json() {
    let json = config_json("9", "");
    let mut stream =
        WhisperStreamBuilder::new().build_from_json(&json, tokenizer(&NAMES)).ok().unwrap();
    let action = stream.feed_pcm(&vec![0; 160_000]);
    assert!(matches!(action, Action::Mel { pcm } if pcm.len() == 160_000));
    let action = stream.resume(Event::Mel { len: 800 });
    assert!(matches!(action, Action::Spectrogram { bins: 80, frames: 10 }));
    let error = WhisperStreamBuilder::new().build_from_json("{}", tokenizer(&NAMES)).err();
    assert!(matches!(error, Some(BuildError::InvalidConfig(_))));
    let error = WhisperStreamBuilder::new().build_from_json(&json, tokenizer(&[])).err();
    assert!(matches!(error, Some(BuildError::MissingToken(_))));
}

#[test]
fn no_stream_is_built_without_quantized_weights() {
    let base = || WhisperStreamBuilder::new().model_size(ModelSize::Base).quantized(true);
    let error = base().build(&config(), tokenizer(&NAMES)).err();
    assert!(matches!(error, Some(BuildError::QuantizedUnavailable)));
    let error = base().build_from_json("{}", tokenizer(&NAMES)).err();
    assert!(matches!(error, Some(BuildError::QuantizedUnavailable)));
    let tiny = WhisperStreamBuilder::new().quantized(true);
    assert!(tiny.build(&config(), tokenizer(&NAMES)).is_ok());
}

#[test]
fn suppressed_tokens() {
    let mask = suppression_mask(&config(), false, 7);
    assert_eq!(mask, vec![false, false, false, true, false, false, false, false, true]);
    let mask = suppression_mask(&config(), true, 7);
    assert_eq!(mask, vec![false, false, false, true, false, false, false, true, true]);
}

#[test]
fn chunks_last_as_long_as_set() {
    for (seconds, samples) in [(2.0f64, 32_000usize), (0.1, 16_000), (99.0, 480_000)] {
        let mut stream = WhisperStreamBuilder::new()
            .chunk_seconds(seconds.to_bits())
            .task(Task::Transcribe)
            .verbose(true)
            .timestamps(false)
            .max_initial_timestamp_index(50)
            .build(&config(), tokenizer(&NAMES))
            .ok()
            .unwrap();
        assert_eq!(stream.expected_sample_rate(), 16_000);
        let action = stream.feed_pcm(&vec![0; samples - 1]);
        assert!(matches!(action, Action::Finished { chunks } if chunks.is_empty()));
        let action = stream.feed_pcm(&[0]);
        assert!(matches!(action, Action::Mel { pcm } if pcm.len() == samples));
    }
}
