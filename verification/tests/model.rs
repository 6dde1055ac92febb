use whisper_stream::model::{ModelSize, Task};

fn table() -> Vec<(ModelSize, &'static str, &'static str)> {
    vec![
        (ModelSize::Tiny, "openai/whisper-tiny", "main"),
        (ModelSize::TinyEn, "openai/whisper-tiny.en", "refs/pr/15"),
        (ModelSize::Base, "openai/whisper-base", "refs/pr/22"),
        (ModelSize::BaseEn, "openai/whisper-base.en", "refs/pr/13"),
        (ModelSize::Small, "openai/whisper-small", "main"),
        (ModelSize::SmallEn, "openai/whisper-small.en", "refs/pr/10"),
        (ModelSize::Medium, "openai/whisper-medium", "main"),
        (ModelSize::MediumEn, "openai/whisper-medium.en", "main"),
        (ModelSize::Large, "openai/whisper-large", "refs/pr/36"),
        (ModelSize::LargeV2, "openai/whisper-large-v2", "refs/pr/57"),
        (ModelSize::LargeV3, "openai/whisper-large-v3", "main"),
        (ModelSize::LargeV3Turbo, "openai/whisper-large-v3-turbo", "main"),
        (ModelSize::DistilMediumEn, "distil-whisper/distil-medium.en", "main"),
        (ModelSize::DistilLargeV2, "distil-whisper/distil-large-v2", "main"),
        (ModelSize::DistilLargeV3, "distil-whisper/distil-large-v3", "main"),
    ]
}

#[test]
fn sizes_name_their_repositories() {
    for (size, repository, revision) in table() {
        assert_eq!(size.model_and_revision(), (repository, revision));
    }
}

#[test]
fn english_only_sizes_end_in_en() {
    for (size, repository, _) in table() {
        assert_eq!(size.is_multilingual(), !repository.ends_with(".en"), "{size:?}");
    }
}

#[test]
fn only_tiny_sizes_are_quantized() {
    assert_eq!(ModelSize::Tiny.quantized_ext(), Some("tiny"));
    assert_eq!(ModelSize::TinyEn.quantized_ext(), Some("tiny-en"));
    for (size, _, _) in table().into_iter().skip(2) {
        assert_eq!(size.quantized_ext(), None, "{size:?}");
    }
}

#[test]
fn tasks_compare() {
    assert_ne!(Task::Transcribe, Task::Translate);
}
