//! What a stream needs to know of the model that runs it, and the text that says so.
use candle_transformers::models::whisper;
use vstd::prelude::*;

use crate::error::{BuildError, BuildErrorView};

verus! {

/// What a stream needs to know of the model that runs it.
#[derive(Debug)]
pub struct ModelConfig {
    pub vocab_size: u32,
    pub num_mel_bins: usize,
    pub max_target_positions: usize,
    /// Tokens that are never to be chosen.
    pub suppress_tokens: Vec<u32>,
}

/// A [`ModelConfig`] over sequences.
#[verifier::ext_equal]
pub struct ConfigView {
    pub vocab_size: u32,
    pub num_mel_bins: usize,
    pub max_target_positions: usize,
    pub suppress_tokens: Seq<u32>,
}

impl View for ModelConfig {
    type V = ConfigView;

    open spec fn view(&self) -> ConfigView {
        ConfigView {
            vocab_size: self.vocab_size,
            num_mel_bins: self.num_mel_bins,
            max_target_positions: self.max_target_positions,
            suppress_tokens: self.suppress_tokens@,
        }
    }
}

/// What a model configuration in JSON says of the size of the vocabulary, the number of
/// mel bins, the number of token positions and the tokens to suppress, or why it is no
/// such configuration. Numbers are as wide as `usize`.
pub uninterp spec fn config_of(text: Seq<char>) -> Result<(usize, usize, usize, Seq<u32>), Seq<char>>;

/// `serde_json::from_str` for candle's `whisper::Config`: reads four of the fields of
/// the configuration that the text holds, or gives the message of the error. What makes
/// a text a configuration is left to the name.
#[verifier::external_body]
fn parse_config(text: &str) -> (r: Result<(usize, usize, usize, Vec<u32>), String>)
    ensures
        match r {
            Ok(c) => config_of(text@) == Ok::<(usize, usize, usize, Seq<u32>), Seq<char>>((c.0, c.1, c.2, c.3@)),
            Err(e) => config_of(text@) == Err::<(usize, usize, usize, Seq<u32>), Seq<char>>(e@),
        },
{
    match serde_json::from_str::<whisper::Config>(text) {
        Ok(c) => Ok((c.vocab_size, c.num_mel_bins, c.max_target_positions, c.suppress_tokens)),
        Err(e) => Err(e.to_string()),
    }
}

/// The configuration of a stream, given what was read of that of the model. Token ids
/// have 32 bits, and so many are kept of the size of the vocabulary.
pub open spec fn configured(
    parsed: Result<(usize, usize, usize, Seq<u32>), Seq<char>>,
) -> Result<ConfigView, BuildErrorView> {
    match parsed {
        Ok((vocab_size, num_mel_bins, max_target_positions, suppress_tokens)) => Ok(
            ConfigView {
                vocab_size: (vocab_size as int % 0x1_0000_0000) as u32,
                num_mel_bins,
                max_target_positions,
                suppress_tokens,
            },
        ),
        Err(message) => Err(BuildErrorView::InvalidConfig(message)),
    }
}

/// What was read, over sequences.
pub open spec fn parsed_view(
    parsed: Result<(usize, usize, usize, Vec<u32>), String>,
) -> Result<(usize, usize, usize, Seq<u32>), Seq<char>> {
    match parsed {
        Ok(c) => Ok((c.0, c.1, c.2, c.3@)),
        Err(message) => Err(message@),
    }
}

/// Makes the configuration of a stream out of what was read of that of the model: the
/// size of the vocabulary, the number of mel bins, the number of token positions and
/// the tokens to suppress.
pub fn model_config(parsed: Result<(usize, usize, usize, Vec<u32>), String>) -> (r: Result<
    ModelConfig,
    BuildError,
>)
    ensures
        match configured(parsed_view(parsed)) {
            Ok(config) => r matches Ok(c) && c@ == config,
            Err(error) => r matches Err(e) && e@ == error,
        },
{
    match parsed {
        Ok((vocab_size, num_mel_bins, max_target_positions, suppress_tokens)) => {
            let wide: u64 = vocab_size as u64;
            assert(wide as u32 == wide % 0x1_0000_0000) by (bit_vector);
            Ok(
                ModelConfig {
                    vocab_size: #[verifier::truncate]
                    (wide as u32),
                    num_mel_bins,
                    max_target_positions,
                    suppress_tokens,
                },
            )
        },
        Err(message) => Err(BuildError::InvalidConfig(message)),
    }
}

/// Reads the configuration of a model from JSON.
pub fn read_config(text: &str) -> (r: Result<ModelConfig, BuildError>)
    ensures
        match configured(config_of(text@)) {
            Ok(config) => r matches Ok(c) && c@ == config,
            Err(error) => r matches Err(e) && e@ == error,
        },
{
    model_config(parse_config(text))
}

} // verus!
