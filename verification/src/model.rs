//! The checkpoints that can be named by size, and what to do with the audio.
use vstd::prelude::*;

verus! {

/// What to turn the speech into.
#[derive(Clone, Copy, Debug, PartialEq, Eq, Structural)]
pub enum Task {
    /// Text in the language that is spoken.
    Transcribe,
    /// Text in English.
    Translate,
}

/// Presets for the official `openai/whisper-*` and `distil-whisper/*` checkpoints
/// on the Hugging Face Hub.
#[derive(Clone, Copy, Debug, PartialEq, Eq, Structural)]
pub enum ModelSize {
    Tiny,
    TinyEn,
    Base,
    BaseEn,
    Small,
    SmallEn,
    Medium,
    MediumEn,
    Large,
    LargeV2,
    LargeV3,
    LargeV3Turbo,
    DistilMediumEn,
    DistilLargeV2,
    DistilLargeV3,
}

/// A string ends in the given suffix.
pub open spec fn ends_with(s: Seq<char>, suffix: Seq<char>) -> bool {
    s.len() >= suffix.len() && s.skip(s.len() - suffix.len()) == suffix
}

impl ModelSize {
    /// The checkpoint was trained on more languages than English.
    pub open spec fn multilingual(self) -> bool {
        match self {
            ModelSize::TinyEn
            | ModelSize::BaseEn
            | ModelSize::SmallEn
            | ModelSize::MediumEn
            | ModelSize::DistilMediumEn => false,
            _ => true,
        }
    }

    /// The repository that holds the checkpoint.
    pub open spec fn repository(self) -> Seq<char> {
        match self {
            ModelSize::Tiny => "openai/whisper-tiny"@,
            ModelSize::TinyEn => "openai/whisper-tiny.en"@,
            ModelSize::Base => "openai/whisper-base"@,
            ModelSize::BaseEn => "openai/whisper-base.en"@,
            ModelSize::Small => "openai/whisper-small"@,
            ModelSize::SmallEn => "openai/whisper-small.en"@,
            ModelSize::Medium => "openai/whisper-medium"@,
            ModelSize::MediumEn => "openai/whisper-medium.en"@,
            ModelSize::Large => "openai/whisper-large"@,
            ModelSize::LargeV2 => "openai/whisper-large-v2"@,
            ModelSize::LargeV3 => "openai/whisper-large-v3"@,
            ModelSize::LargeV3Turbo => "openai/whisper-large-v3-turbo"@,
            ModelSize::DistilMediumEn => "distil-whisper/distil-medium.en"@,
            ModelSize::DistilLargeV2 => "distil-whisper/distil-large-v2"@,
            ModelSize::DistilLargeV3 => "distil-whisper/distil-large-v3"@,
        }
    }

    /// The revision of the repository to take the checkpoint from.
    pub open spec fn revision(self) -> Seq<char> {
        match self {
            ModelSize::TinyEn => "refs/pr/15"@,
            ModelSize::Base => "refs/pr/22"@,
            ModelSize::BaseEn => "refs/pr/13"@,
            ModelSize::SmallEn => "refs/pr/10"@,
            ModelSize::Large => "refs/pr/36"@,
            ModelSize::LargeV2 => "refs/pr/57"@,
            _ => "main"@,
        }
    }

    /// The name under which quantized weights of the checkpoint are published.
    pub open spec fn quantized_name(self) -> Option<Seq<char>> {
        match self {
            ModelSize::Tiny => Some("tiny"@),
            ModelSize::TinyEn => Some("tiny-en"@),
            _ => None,
        }
    }

    /// Whether the checkpoint knows more languages than English.
    pub fn is_multilingual(&self) -> (r: bool)
        ensures
            r == self.multilingual(),
    {
        !matches!(
            self,
            ModelSize::TinyEn
                | ModelSize::BaseEn
                | ModelSize::SmallEn
                | ModelSize::MediumEn
                | ModelSize::DistilMediumEn
        )
    }

    /// The repository of the checkpoint and the revision to use.
    pub fn model_and_revision(&self) -> (r: (&'static str, &'static str))
        ensures
            r.0@ == self.repository(),
            r.1@ == self.revision(),
    {
        match self {
            ModelSize::Tiny => ("openai/whisper-tiny", "main"),
            ModelSize::TinyEn => ("openai/whisper-tiny.en", "refs/pr/15"),
            ModelSize::Base => ("openai/whisper-base", "refs/pr/22"),
            ModelSize::BaseEn => ("openai/whisper-base.en", "refs/pr/13"),
            ModelSize::Small => ("openai/whisper-small", "main"),
            ModelSize::SmallEn => ("openai/whisper-small.en", "refs/pr/10"),
            ModelSize::Medium => ("openai/whisper-medium", "main"),
            ModelSize::MediumEn => ("openai/whisper-medium.en", "main"),
            ModelSize::Large => ("openai/whisper-large", "refs/pr/36"),
            ModelSize::LargeV2 => ("openai/whisper-large-v2", "refs/pr/57"),
            ModelSize::LargeV3 => ("openai/whisper-large-v3", "main"),
            ModelSize::LargeV3Turbo => ("openai/whisper-large-v3-turbo", "main"),
            ModelSize::DistilMediumEn => ("distil-whisper/distil-medium.en", "main"),
            ModelSize::DistilLargeV2 => ("distil-whisper/distil-large-v2", "main"),
            ModelSize::DistilLargeV3 => ("distil-whisper/distil-large-v3", "main"),
        }
    }

    /// The infix of the quantized files. Only the tiny checkpoints ship quantized
    /// weights.
    pub fn quantized_ext(&self) -> (r: Option<&'static str>)
        ensures
            match self.quantized_name() {
                Some(name) => r matches Some(ext) && ext@ == name,
                None => r is None,
            },
    {
        match self {
            ModelSize::Tiny => Some("tiny"),
            ModelSize::TinyEn => Some("tiny-en"),
            _ => None,
        }
    }
}

/// A checkpoint knows English only exactly if its repository says so by its ending.
pub proof fn english_only_by_name(size: ModelSize)
    ensures
        size.multilingual() <==> !ends_with(size.repository(), ".en"@),
{
    reveal_strlit(".en");
    reveal_strlit("openai/whisper-tiny");
    reveal_strlit("openai/whisper-tiny.en");
    reveal_strlit("openai/whisper-base");
    reveal_strlit("openai/whisper-base.en");
    reveal_strlit("openai/whisper-small");
    reveal_strlit("openai/whisper-small.en");
    reveal_strlit("openai/whisper-medium");
    reveal_strlit("openai/whisper-medium.en");
    reveal_strlit("openai/whisper-large");
    reveal_strlit("openai/whisper-large-v2");
    reveal_strlit("openai/whisper-large-v3");
    reveal_strlit("openai/whisper-large-v3-turbo");
    reveal_strlit("distil-whisper/distil-medium.en");
    reveal_strlit("distil-whisper/distil-large-v2");
    reveal_strlit("distil-whisper/distil-large-v3");
    let name = size.repository();
    let ending = name.skip(name.len() - 3);
    if size.multilingual() {
        assert(ending[0] == name[name.len() - 3]);
        assert(ending[1] == name[name.len() - 2]);
        assert(ending[2] == name[name.len() - 1]);
    } else {
        assert(ending =~= ".en"@);
    }
}

/// Quantized weights exist of the tiny checkpoints only.
pub proof fn only_tiny_is_quantized(size: ModelSize)
    ensures
        size.quantized_name() is Some <==> (size == ModelSize::Tiny || size == ModelSize::TinyEn),
{
}

} // verus!
