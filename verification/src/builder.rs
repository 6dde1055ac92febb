//! Putting a stream together.
use byteorder::ByteOrder;
use tokenizers::Tokenizer;
use vstd::prelude::*;

use crate::config::{config_of, configured, read_config, ConfigView, ModelConfig};
use crate::duration::{
    clamp_seconds, samples_in, samples_in_seconds, ONE_SECOND, TEN_SECONDS, THIRTY_SECONDS,
};
use crate::error::{BuildError, BuildErrorView};
use crate::model::{ModelSize, Task};
use crate::protocol::optional_text;
use crate::settings::{Settings, SpecialTokens, N_FFT, SAMPLE_RATE};
use crate::state::State;
use crate::stream::WhisperStream;
use crate::tokenizer::token_id;

verus! {

/// The choices that make up a stream.
pub struct WhisperStreamBuilder {
    model_id: Option<String>,
    revision: Option<String>,
    size: ModelSize,
    quantized: bool,
    language: Option<String>,
    task: Task,
    timestamps: bool,
    max_initial_timestamp_index: Option<u32>,
    seed: u64,
    chunk_seconds: u64,
    cpu: bool,
    verbose: bool,
    mel_filters: Option<Vec<u32>>,
}

/// A [`WhisperStreamBuilder`] over sequences.
#[verifier::ext_equal]
pub struct BuilderView {
    pub model_id: Option<Seq<char>>,
    pub revision: Option<Seq<char>>,
    pub size: ModelSize,
    pub quantized: bool,
    pub language: Option<Seq<char>>,
    pub task: Task,
    pub timestamps: bool,
    pub max_initial_timestamp_index: Option<u32>,
    pub seed: u64,
    /// Length of a chunk in seconds, in double precision.
    pub chunk_seconds: u64,
    pub cpu: bool,
    pub verbose: bool,
    /// Mel filterbank, in single precision.
    pub mel_filters: Option<Seq<u32>>,
}

/// The numbers of a list that may be absent.
pub open spec fn optional_words(words: Option<Vec<u32>>) -> Option<Seq<u32>> {
    match words {
        Some(words) => Some(words@),
        None => None,
    }
}

impl View for WhisperStreamBuilder {
    type V = BuilderView;

    closed spec fn view(&self) -> BuilderView {
        BuilderView {
            model_id: optional_text(self.model_id),
            revision: optional_text(self.revision),
            size: self.size,
            quantized: self.quantized,
            language: optional_text(self.language),
            task: self.task,
            timestamps: self.timestamps,
            max_initial_timestamp_index: self.max_initial_timestamp_index,
            seed: self.seed,
            chunk_seconds: self.chunk_seconds,
            cpu: self.cpu,
            verbose: self.verbose,
            mel_filters: optional_words(self.mel_filters),
        }
    }
}

/// The little-endian number in four bytes of `bytes`, the first of them at `at`.
pub open spec fn little_endian(bytes: Seq<u8>, at: int) -> int {
    bytes[at] + 0x100 * bytes[at + 1] + 0x1_0000 * bytes[at + 2] + 0x100_0000 * bytes[at + 3]
}

/// The little-endian numbers that the bytes hold, four bytes to a number.
pub open spec fn words(bytes: Seq<u8>) -> Seq<u32> {
    Seq::new(bytes.len() / 4, |i: int| little_endian(bytes, 4 * i) as u32)
}

/// `byteorder::LittleEndian::read_u32_into`: fills `words` with the little-endian
/// numbers that the bytes hold, four bytes to a number.
#[verifier::external_body]
fn read_words(bytes: &[u8], words: &mut Vec<u32>)
    requires
        bytes@.len() == 4 * old(words)@.len(),
    ensures
        final(words)@.len() == old(words)@.len(),
        forall|i: int|
            0 <= i < final(words)@.len() ==> #[trigger] final(words)@[i] == little_endian(
                bytes@,
                4 * i,
            ),
{
    byteorder::LittleEndian::read_u32_into(bytes, words.as_mut_slice());
}

impl BuilderView {
    /// The choices where none was made.
    pub open spec fn initial() -> BuilderView {
        BuilderView {
            model_id: None,
            revision: None,
            size: ModelSize::TinyEn,
            quantized: false,
            language: None,
            task: Task::Transcribe,
            timestamps: false,
            max_initial_timestamp_index: None,
            seed: 299_792_458,
            chunk_seconds: TEN_SECONDS,
            cpu: true,
            verbose: false,
            mel_filters: None,
        }
    }

    /// The repository and revision to take the checkpoint from: those that were named,
    /// and where none were, those of the quantized weights or of the size.
    pub open spec fn source(self) -> (Seq<char>, Seq<char>) {
        (
            match self.model_id {
                Some(model_id) => model_id,
                None => if self.quantized {
                    "lmz/candle-whisper"@
                } else {
                    self.size.repository()
                },
            },
            match self.revision {
                Some(revision) => revision,
                None => if self.quantized {
                    "main"@
                } else {
                    self.size.revision()
                },
            },
        )
    }
}

impl Default for WhisperStreamBuilder {
    fn default() -> (r: Self)
        ensures
            r@ == BuilderView::initial(),
    {
        WhisperStreamBuilder {
            model_id: None,
            revision: None,
            size: ModelSize::TinyEn,
            quantized: false,
            language: None,
            task: Task::Transcribe,
            timestamps: false,
            max_initial_timestamp_index: None,
            seed: 299_792_458,
            chunk_seconds: TEN_SECONDS,
            cpu: true,
            verbose: false,
            mel_filters: None,
        }
    }
}

impl WhisperStreamBuilder {
    /// A chunk is one to thirty seconds long.
    #[verifier::type_invariant]
    closed spec fn chunk_fits(self) -> bool {
        ONE_SECOND <= self.chunk_seconds <= THIRTY_SECONDS
    }

    /// The usual choices.
    pub fn new() -> (r: Self)
        ensures
            r@ == BuilderView::initial(),
    {
        WhisperStreamBuilder::default()
    }

    /// Which official checkpoint to use. [`ModelSize::TinyEn`] if not set.
    pub fn model_size(self, size: ModelSize) -> (r: Self)
        ensures
            r@ == (BuilderView { size, ..self@ }),
    {
        let mut builder = self;
        proof {
            use_type_invariant(&builder);
        }
        builder.size = size;
        builder
    }

    /// Takes the checkpoint from this repository instead.
    pub fn model_id(self, model_id: &str) -> (r: Self)
        ensures
            r@ == (BuilderView { model_id: Some(model_id@), ..self@ }),
    {
        let mut builder = self;
        proof {
            use_type_invariant(&builder);
        }
        builder.model_id = Some(model_id.to_string());
        builder
    }

    /// Takes the checkpoint from this revision instead.
    pub fn revision(self, revision: &str) -> (r: Self)
        ensures
            r@ == (BuilderView { revision: Some(revision@), ..self@ }),
    {
        let mut builder = self;
        proof {
            use_type_invariant(&builder);
        }
        builder.revision = Some(revision.to_string());
        builder
    }

    /// Uses quantized weights. Only the tiny checkpoints have them.
    pub fn quantized(self, quantized: bool) -> (r: Self)
        ensures
            r@ == (BuilderView { quantized, ..self@ }),
    {
        let mut builder = self;
        proof {
            use_type_invariant(&builder);
        }
        builder.quantized = quantized;
        builder
    }

    /// Sets the language that is spoken. If not set, a multilingual model detects it
    /// in the first chunk.
    pub fn language(self, language: &str) -> (r: Self)
        ensures
            r@ == (BuilderView { language: Some(language@), ..self@ }),
    {
        let mut builder = self;
        proof {
            use_type_invariant(&builder);
        }
        builder.language = Some(language.to_string());
        builder
    }

    /// Sets what to turn the speech into.
    pub fn task(self, task: Task) -> (r: Self)
        ensures
            r@ == (BuilderView { task, ..self@ }),
    {
        let mut builder = self;
        proof {
            use_type_invariant(&builder);
        }
        builder.task = task;
        builder
    }

    /// Turns timestamp tokens and the rules for them on.
    pub fn timestamps(self, timestamps: bool) -> (r: Self)
        ensures
            r@ == (BuilderView { timestamps, ..self@ }),
    {
        let mut builder = self;
        proof {
            use_type_invariant(&builder);
        }
        builder.timestamps = timestamps;
        builder
    }

    /// Sets the last timestamp, counted from the first, that a window may open with.
    pub fn max_initial_timestamp_index(self, idx: u32) -> (r: Self)
        ensures
            r@ == (BuilderView { max_initial_timestamp_index: Some(idx), ..self@ }),
    {
        let mut builder = self;
        proof {
            use_type_invariant(&builder);
        }
        builder.max_initial_timestamp_index = Some(idx);
        builder
    }

    /// Sets the seed for sampling.
    pub fn seed(self, seed: u64) -> (r: Self)
        ensures
            r@ == (BuilderView { seed, ..self@ }),
    {
        let mut builder = self;
        proof {
            use_type_invariant(&builder);
        }
        builder.seed = seed;
        builder
    }

    /// Sets how many seconds of audio to gather before they are decoded, in double
    /// precision. Less is decoded sooner, more is decoded better. Brought between 1
    /// and 30 seconds, 30 being what fits the window of the encoder.
    pub fn chunk_seconds(self, seconds: u64) -> (r: Self)
        ensures
            r@ == (BuilderView { chunk_seconds: crate::duration::clamped(seconds), ..self@ }),
    {
        let mut builder = self;
        proof {
            use_type_invariant(&builder);
        }
        builder.chunk_seconds = clamp_seconds(seconds);
        builder
    }

    /// Runs the model on the CPU even where there is a GPU.
    pub fn cpu(self, cpu: bool) -> (r: Self)
        ensures
            r@ == (BuilderView { cpu, ..self@ }),
    {
        let mut builder = self;
        proof {
            use_type_invariant(&builder);
        }
        builder.cpu = cpu;
        builder
    }

    /// Reports decoding attempts that failed.
    pub fn verbose(self, verbose: bool) -> (r: Self)
        ensures
            r@ == (BuilderView { verbose, ..self@ }),
    {
        let mut builder = self;
        proof {
            use_type_invariant(&builder);
        }
        builder.verbose = verbose;
        builder
    }

    /// Uses a mel filterbank of the caller's: little-endian single-precision numbers,
    /// one filter after the other.
    pub fn mel_filters_from_bytes(self, bytes: &[u8]) -> (r: Self)
        requires
            bytes@.len() % 4 == 0,
        ensures
            r@ == (BuilderView { mel_filters: Some(words(bytes@)), ..self@ }),
    {
        let mut filters: Vec<u32> = vec![0; bytes.len() / 4];
        read_words(bytes, &mut filters);
        assert(filters@ =~= words(bytes@));
        let mut builder = self;
        proof {
            use_type_invariant(&builder);
        }
        builder.mel_filters = Some(filters);
        builder
    }
}

/// The files that make up a checkpoint.
#[derive(Debug)]
pub struct Artifacts {
    pub config: String,
    pub tokenizer: String,
    pub weights: String,
}

/// [`Artifacts`] over sequences.
#[verifier::ext_equal]
pub struct ArtifactsView {
    pub config: Seq<char>,
    pub tokenizer: Seq<char>,
    pub weights: Seq<char>,
}

impl View for Artifacts {
    type V = ArtifactsView;

    open spec fn view(&self) -> ArtifactsView {
        ArtifactsView {
            config: self.config@,
            tokenizer: self.tokenizer@,
            weights: self.weights@,
        }
    }
}

/// Where the mel filterbank comes from.
#[derive(Debug)]
pub enum Filterbank {
    /// From the caller, in single precision.
    Given { weights: Vec<u32> },
    /// It is to be computed for this sample rate, this length of the Fourier transform
    /// and this number of mel bins.
    Computed { sample_rate: usize, n_fft: usize, n_mels: usize },
}

/// A [`Filterbank`] over sequences.
#[verifier::ext_equal]
pub enum FilterbankView {
    Given { weights: Seq<u32> },
    Computed { sample_rate: nat, n_fft: nat, n_mels: nat },
}

impl View for Filterbank {
    type V = FilterbankView;

    open spec fn view(&self) -> FilterbankView {
        match *self {
            Filterbank::Given { weights } => FilterbankView::Given { weights: weights@ },
            Filterbank::Computed { sample_rate, n_fft, n_mels } => FilterbankView::Computed {
                sample_rate: sample_rate as nat,
                n_fft: n_fft as nat,
                n_mels: n_mels as nat,
            },
        }
    }
}

impl BuilderView {
    /// The mel filterbank of a stream: the one that was given, or else one computed for
    /// the model.
    pub open spec fn filters(self, num_mel_bins: nat) -> FilterbankView {
        match self.mel_filters {
            Some(weights) => FilterbankView::Given { weights },
            None => FilterbankView::Computed {
                sample_rate: SAMPLE_RATE as nat,
                n_fft: N_FFT as nat,
                n_mels: num_mel_bins,
            },
        }
    }

    /// The files to take from the repository. There are none if quantized weights are
    /// wanted of a checkpoint without them.
    pub open spec fn files(self) -> Option<ArtifactsView> {
        if !self.quantized {
            Some(
                ArtifactsView {
                    config: "config.json"@,
                    tokenizer: "tokenizer.json"@,
                    weights: "model.safetensors"@,
                },
            )
        } else {
            match self.size.quantized_name() {
                Some(name) => Some(
                    ArtifactsView {
                        config: "config-"@ + name + ".json"@,
                        tokenizer: "tokenizer-"@ + name + ".json"@,
                        weights: "model-"@ + name + "-q80.gguf"@,
                    },
                ),
                None => None,
            }
        }
    }
}

impl WhisperStreamBuilder {
    /// The repository to take the checkpoint from, and its revision.
    pub fn repository(&self) -> (r: (String, String))
        ensures
            r.0@ == self@.source().0,
            r.1@ == self@.source().1,
    {
        let (default_model, default_revision) = if self.quantized {
            ("lmz/candle-whisper", "main")
        } else {
            self.size.model_and_revision()
        };
        let model_id = match &self.model_id {
            Some(model_id) => model_id.clone(),
            None => default_model.to_string(),
        };
        let revision = match &self.revision {
            Some(revision) => revision.clone(),
            None => default_revision.to_string(),
        };
        (model_id, revision)
    }

    /// The files to take from the repository.
    pub fn artifacts(&self) -> (r: Result<Artifacts, BuildError>)
        ensures
            match self@.files() {
                Some(files) => r matches Ok(artifacts) && artifacts@ == files,
                None => r matches Err(error) && error@ == BuildErrorView::QuantizedUnavailable,
            },
    {
        if !self.quantized {
            return Ok(
                Artifacts {
                    config: "config.json".to_string(),
                    tokenizer: "tokenizer.json".to_string(),
                    weights: "model.safetensors".to_string(),
                },
            );
        }
        match self.size.quantized_ext() {
            Some(ext) => Ok(
                Artifacts {
                    config: "config-".to_string().concat(ext).concat(".json"),
                    tokenizer: "tokenizer-".to_string().concat(ext).concat(".json"),
                    weights: "model-".to_string().concat(ext).concat("-q80.gguf"),
                },
            ),
            None => Err(BuildError::QuantizedUnavailable),
        }
    }

    /// Whether quantized weights are to be used.
    pub fn is_quantized(&self) -> (r: bool)
        ensures
            r == self@.quantized,
    {
        self.quantized
    }

    /// Whether the model is to run on the CPU even where there is a GPU.
    pub fn is_cpu(&self) -> (r: bool)
        ensures
            r == self@.cpu,
    {
        self.cpu
    }

    /// The seed for sampling.
    pub fn sampling_seed(&self) -> (r: u64)
        ensures
            r == self@.seed,
    {
        self.seed
    }

    /// The mel filterbank for a model with this many mel bins.
    pub fn filterbank(&self, num_mel_bins: usize) -> (r: Filterbank)
        ensures
            r@ == self@.filters(num_mel_bins as nat),
    {
        match &self.mel_filters {
            Some(filters) => {
                let weights = filters.clone();
                assert(weights@ =~= filters@);
                Filterbank::Given { weights }
            },
            None => Filterbank::Computed {
                sample_rate: SAMPLE_RATE,
                n_fft: N_FFT,
                n_mels: num_mel_bins,
            },
        }
    }
}

/// What the tokenizer says of the tokens that a stream needs.
#[derive(Clone, Copy, Debug)]
pub struct TokenIds {
    pub no_timestamps: Option<u32>,
    pub sot: Option<u32>,
    pub transcribe: Option<u32>,
    pub translate: Option<u32>,
    pub eot: Option<u32>,
    /// Two tokens may mark the absence of speech; the first that is known does.
    pub no_captions: Option<u32>,
    pub no_speech: Option<u32>,
    /// The token of the language that is wanted.
    pub language: Option<u32>,
}

/// The token of a language, given its code.
pub open spec fn language_tag(language: Seq<char>) -> Seq<char> {
    "<|"@ + language + "|>"@
}

/// The ids of the tokens that a stream needs.
pub open spec fn token_ids(tokenizer: Tokenizer, language: Option<Seq<char>>) -> TokenIds {
    let id = |token: Seq<char>| crate::tokenizer::id_of(tokenizer, token);
    TokenIds {
        no_timestamps: id("<|notimestamps|>"@),
        sot: id("<|startoftranscript|>"@),
        transcribe: id("<|transcribe|>"@),
        translate: id("<|translate|>"@),
        eot: id("<|endoftext|>"@),
        no_captions: id("<|nocaptions|>"@),
        no_speech: id("<|nospeech|>"@),
        language: match language {
            Some(language) => id(language_tag(language)),
            None => None,
        },
    }
}

/// The tokens of a stream and its language, or the first thing that is missing.
pub open spec fn resolved(ids: TokenIds, language: Option<Seq<char>>) -> Result<
    (SpecialTokens, Option<u32>),
    BuildErrorView,
> {
    if ids.no_timestamps is None {
        Err(BuildErrorView::MissingToken("<|notimestamps|>"@))
    } else if ids.sot is None {
        Err(BuildErrorView::MissingToken("<|startoftranscript|>"@))
    } else if ids.transcribe is None {
        Err(BuildErrorView::MissingToken("<|transcribe|>"@))
    } else if ids.translate is None {
        Err(BuildErrorView::MissingToken("<|translate|>"@))
    } else if ids.eot is None {
        Err(BuildErrorView::MissingToken("<|endoftext|>"@))
    } else if ids.no_captions is None && ids.no_speech is None {
        Err(BuildErrorView::MissingNoSpeechToken)
    } else if language is Some && ids.language is None {
        Err(BuildErrorView::UnsupportedLanguage(language->0))
    } else {
        Ok(
            (
                SpecialTokens {
                    sot: ids.sot->0,
                    transcribe: ids.transcribe->0,
                    translate: ids.translate->0,
                    eot: ids.eot->0,
                    no_speech: if ids.no_captions is Some {
                        ids.no_captions->0
                    } else {
                        ids.no_speech->0
                    },
                    no_timestamps: ids.no_timestamps->0,
                },
                if language is Some {
                    ids.language
                } else {
                    None
                },
            ),
        )
    }
}

/// The tokens that are never to be chosen: those that the model names, and with
/// timestamps on the one that would turn them off.
pub open spec fn suppressed(
    config: ConfigView,
    timestamps: bool,
    no_timestamps: u32,
) -> Seq<bool> {
    Seq::new(
        config.vocab_size as nat,
        |i: int|
            config.suppress_tokens.contains(i as u32) || (timestamps && i == no_timestamps),
    )
}

impl BuilderView {
    /// The language to look up: one that was set, if the model knows several.
    pub open spec fn wanted_language(self) -> Option<Seq<char>> {
        if self.size.multilingual() {
            self.language
        } else {
            None
        }
    }

    /// The settings of a stream with these tokens.
    pub open spec fn settings(self, config: ConfigView, tokens: SpecialTokens) -> Settings {
        Settings {
            task: self.task,
            timestamps: self.timestamps,
            max_initial_timestamp_index: self.max_initial_timestamp_index,
            verbose: self.verbose,
            tokens,
            is_multilingual: self.size.multilingual(),
            chunk_samples: samples_in(self.chunk_seconds) as usize,
            vocab_size: config.vocab_size,
            num_mel_bins: config.num_mel_bins,
            max_target_positions: config.max_target_positions,
        }
    }

    /// The stream that comes of these choices, or why there is none.
    pub open spec fn built(
        self,
        config: ConfigView,
        tokenizer: Tokenizer,
        ids: TokenIds,
    ) -> Result<State, BuildErrorView> {
        if self.files() is None {
            Err(BuildErrorView::QuantizedUnavailable)
        } else {
            match resolved(ids, self.wanted_language()) {
                Ok((tokens, language_token)) => Ok(
                    State::initial(
                        self.settings(config, tokens),
                        tokenizer,
                        suppressed(config, self.timestamps, tokens.no_timestamps),
                        language_token,
                    ),
                ),
                Err(error) => Err(error),
            }
        }
    }

    /// The stream that comes of these choices and of a configuration that was read, or
    /// why there is none. Files come before the configuration, and that before tokens.
    pub open spec fn built_from(
        self,
        config: Result<ConfigView, BuildErrorView>,
        tokenizer: Tokenizer,
        ids: TokenIds,
    ) -> Result<State, BuildErrorView> {
        if self.files() is None {
            Err(BuildErrorView::QuantizedUnavailable)
        } else {
            match config {
                Ok(config) => self.built(config, tokenizer, ids),
                Err(error) => Err(error),
            }
        }
    }
}

/// Whether the token is in the list.
fn contains(tokens: &Vec<u32>, token: u32) -> (r: bool)
    ensures
        r == tokens@.contains(token),
{
    let mut i: usize = 0;
    while i < tokens.len()
        invariant
            i <= tokens@.len(),
            forall|j: int| 0 <= j < i ==> tokens@[j] != token,
        decreases tokens@.len() - i,
    {
        if tokens[i] == token {
            return true;
        }
        i += 1;
    }
    false
}

/// The mask of the tokens that are never to be chosen.
pub fn suppression_mask(config: &ModelConfig, timestamps: bool, no_timestamps: u32) -> (r: Vec<
    bool,
>)
    ensures
        r@ == suppressed(config@, timestamps, no_timestamps),
        r@.len() == config.vocab_size,
        forall|i: int|
            0 <= i < r@.len() ==> (#[trigger] r@[i] <==> config.suppress_tokens@.contains(i as u32)
                || (timestamps && i == no_timestamps)),
{
    let mut mask: Vec<bool> = Vec::new();
    let mut i: u32 = 0;
    while i < config.vocab_size
        invariant
            i <= config.vocab_size,
            mask@ == suppressed(config@, timestamps, no_timestamps).take(i as int),
        decreases config.vocab_size - i,
    {
        mask.push(contains(&config.suppress_tokens, i) || (timestamps && i == no_timestamps));
        i += 1;
        assert(mask@ =~= suppressed(config@, timestamps, no_timestamps).take(i as int));
    }
    assert(mask@ =~= suppressed(config@, timestamps, no_timestamps));
    mask
}

/// Looks a token up, a token that is not known being no error.
fn find(tokenizer: &Tokenizer, token: &str) -> (r: Option<u32>)
    ensures
        r == crate::tokenizer::id_of(*tokenizer, token@),
{
    match token_id(tokenizer, token) {
        Ok(id) => Some(id),
        Err(_) => None,
    }
}

/// Looks up the tokens that a stream needs, that of the language among them if one is
/// given.
pub fn find_tokens(tokenizer: &Tokenizer, language: Option<&str>) -> (r: TokenIds)
    ensures
        r == token_ids(
            *tokenizer,
            match language {
                Some(language) => Some(language@),
                None => None,
            },
        ),
{
    TokenIds {
        no_timestamps: find(tokenizer, "<|notimestamps|>"),
        sot: find(tokenizer, "<|startoftranscript|>"),
        transcribe: find(tokenizer, "<|transcribe|>"),
        translate: find(tokenizer, "<|translate|>"),
        eot: find(tokenizer, "<|endoftext|>"),
        no_captions: find(tokenizer, "<|nocaptions|>"),
        no_speech: find(tokenizer, "<|nospeech|>"),
        language: match language {
            Some(language) => {
                let tag = "<|".to_string().concat(language).concat("|>");
                find(tokenizer, tag.as_str())
            },
            None => None,
        },
    }
}

/// The id of a token, or the error that it is missing.
fn known(id: Option<u32>, token: &str) -> (r: Result<u32, BuildError>)
    ensures
        match id {
            Some(id) => r matches Ok(known) && known == id,
            None => r matches Err(error) && error@ == BuildErrorView::MissingToken(token@),
        },
{
    match id {
        Some(id) => Ok(id),
        None => Err(BuildError::MissingToken(token.to_string())),
    }
}

/// Settles the tokens of a stream and its language from what the tokenizer said of
/// them.
pub fn resolve_tokens(ids: TokenIds, language: Option<&str>) -> (r: Result<
    (SpecialTokens, Option<u32>),
    BuildError,
>)
    ensures
        match resolved(
            ids,
            match language {
                Some(language) => Some(language@),
                None => None,
            },
        ) {
            Ok(tokens) => r matches Ok(known) && known == tokens,
            Err(error) => r matches Err(e) && e@ == error,
        },
{
    let no_timestamps: u32 = known(ids.no_timestamps, "<|notimestamps|>")?;
    let sot: u32 = known(ids.sot, "<|startoftranscript|>")?;
    let transcribe: u32 = known(ids.transcribe, "<|transcribe|>")?;
    let translate: u32 = known(ids.translate, "<|translate|>")?;
    let eot: u32 = known(ids.eot, "<|endoftext|>")?;
    let no_speech: u32 = match (ids.no_captions, ids.no_speech) {
        (Some(id), _) => id,
        (None, Some(id)) => id,
        (None, None) => return Err(BuildError::MissingNoSpeechToken),
    };
    let language_token = match language {
        Some(language) => match ids.language {
            Some(id) => Some(id),
            None => return Err(BuildError::UnsupportedLanguage(language.to_string())),
        },
        None => None,
    };
    let tokens = SpecialTokens { sot, transcribe, translate, eot, no_speech, no_timestamps };
    Ok((tokens, language_token))
}

impl WhisperStreamBuilder {
    /// The code of the language to look up.
    fn wanted(&self) -> (r: Option<&str>)
        ensures
            match self@.wanted_language() {
                Some(language) => r matches Some(code) && code@ == language,
                None => r is None,
            },
    {
        match (&self.language, self.size.is_multilingual()) {
            (Some(language), true) => Some(language.as_str()),
            _ => None,
        }
    }

    /// Puts the stream together, given what the tokenizer says of the tokens that it
    /// needs.
    pub fn assemble(self, config: &ModelConfig, tokenizer: Tokenizer, ids: TokenIds) -> (r: Result<
        WhisperStream,
        BuildError,
    >)
        ensures
            match self@.built(config@, tokenizer, ids) {
                Ok(state) => r matches Ok(stream) && stream@ == state && stream@.valid(),
                Err(error) => r matches Err(e) && e@ == error,
            },
            r matches Ok(stream) ==> 16000 <= stream@.settings.chunk_samples <= 480000
                && stream@.settings.chunk_samples == samples_in(self@.chunk_seconds),
    {
        proof {
            use_type_invariant(&self);
        }
        if let Err(error) = self.artifacts() {
            return Err(error);
        }
        let (tokens, language_token) = match resolve_tokens(ids, self.wanted()) {
            Ok(resolved) => resolved,
            Err(error) => return Err(error),
        };
        let suppress_tokens = suppression_mask(config, self.timestamps, tokens.no_timestamps);
        let settings = Settings {
            task: self.task,
            timestamps: self.timestamps,
            max_initial_timestamp_index: self.max_initial_timestamp_index,
            verbose: self.verbose,
            tokens,
            is_multilingual: self.size.is_multilingual(),
            chunk_samples: samples_in_seconds(self.chunk_seconds),
            vocab_size: config.vocab_size,
            num_mel_bins: config.num_mel_bins,
            max_target_positions: config.max_target_positions,
        };
        Ok(WhisperStream::assemble(settings, tokenizer, suppress_tokens, language_token))
    }

    /// Builds the stream for a model with this configuration and tokenizer. Its chunks
    /// last from 1 to 30 seconds.
    pub fn build(self, config: &ModelConfig, tokenizer: Tokenizer) -> (r: Result<
        WhisperStream,
        BuildError,
    >)
        ensures
            match self@.built(config@, tokenizer, token_ids(tokenizer, self@.wanted_language())) {
                Ok(state) => r matches Ok(stream) && stream@ == state && stream@.valid(),
                Err(error) => r matches Err(e) && e@ == error,
            },
            r matches Ok(stream) ==> 16000 <= stream@.settings.chunk_samples <= 480000
                && stream@.settings.chunk_samples == samples_in(self@.chunk_seconds),
    {
        let ids = find_tokens(&tokenizer, self.wanted());
        self.assemble(config, tokenizer, ids)
    }

    /// Builds the stream for a model with this tokenizer and with this configuration, in
    /// JSON. Its chunks last from 1 to 30 seconds.
    pub fn build_from_json(self, config_json: &str, tokenizer: Tokenizer) -> (r: Result<
        WhisperStream,
        BuildError,
    >)
        ensures
            match self@.built_from(
                configured(config_of(config_json@)),
                tokenizer,
                token_ids(tokenizer, self@.wanted_language()),
            ) {
                Ok(state) => r matches Ok(stream) && stream@ == state && stream@.valid(),
                Err(error) => r matches Err(e) && e@ == error,
            },
            r matches Ok(stream) ==> 16000 <= stream@.settings.chunk_samples <= 480000
                && stream@.settings.chunk_samples == samples_in(self@.chunk_seconds),
    {
        if let Err(error) = self.artifacts() {
            return Err(error);
        }
        match read_config(config_json) {
            Ok(config) => self.build(&config, tokenizer),
            Err(error) => Err(error),
        }
    }
}

} // verus!
