//! What can go wrong while a stream is put together.
use vstd::prelude::*;

verus! {

/// Why a stream cannot be built.
#[derive(Debug)]
pub enum BuildError {
    /// The tokenizer has no id for this token.
    MissingToken(String),
    /// The tokenizer knows none of the tokens that mark the absence of speech.
    MissingNoSpeechToken,
    /// The tokenizer has no token for the requested language.
    UnsupportedLanguage(String),
    /// Quantized weights were requested for a checkpoint that ships none.
    QuantizedUnavailable,
    /// The configuration of the model cannot be read, for this reason.
    InvalidConfig(String),
}

/// A [`BuildError`] with its strings as sequences of characters.
pub enum BuildErrorView {
    MissingToken(Seq<char>),
    MissingNoSpeechToken,
    UnsupportedLanguage(Seq<char>),
    QuantizedUnavailable,
    InvalidConfig(Seq<char>),
}

impl View for BuildError {
    type V = BuildErrorView;

    open spec fn view(&self) -> BuildErrorView {
        match self {
            BuildError::MissingToken(token) => BuildErrorView::MissingToken(token@),
            BuildError::MissingNoSpeechToken => BuildErrorView::MissingNoSpeechToken,
            BuildError::UnsupportedLanguage(language) => BuildErrorView::UnsupportedLanguage(
                language@,
            ),
            BuildError::QuantizedUnavailable => BuildErrorView::QuantizedUnavailable,
            BuildError::InvalidConfig(message) => BuildErrorView::InvalidConfig(message@),
        }
    }
}

impl BuildErrorView {
    /// The message for a user.
    pub open spec fn message(self) -> Seq<char> {
        match self {
            BuildErrorView::MissingToken(token) => "no token-id for "@ + token,
            BuildErrorView::MissingNoSpeechToken => "unable to find any non-speech token"@,
            BuildErrorView::UnsupportedLanguage(language) => "language "@ + language
                + " is not supported"@,
            BuildErrorView::QuantizedUnavailable =>
                "quantized weights are only available for Tiny/TinyEn"@,
            BuildErrorView::InvalidConfig(message) => message,
        }
    }
}

impl BuildError {
    /// The message for a user.
    pub fn message(&self) -> (r: String)
        ensures
            r@ == self@.message(),
    {
        match self {
            BuildError::MissingToken(token) => "no token-id for ".to_string().concat(
                token.as_str(),
            ),
            BuildError::MissingNoSpeechToken => "unable to find any non-speech token".to_string(),
            BuildError::UnsupportedLanguage(language) => "language ".to_string().concat(
                language.as_str(),
            ).concat(" is not supported"),
            BuildError::QuantizedUnavailable =>
                "quantized weights are only available for Tiny/TinyEn".to_string(),
            BuildError::InvalidConfig(message) => message.clone(),
        }
    }
}

} // verus!
