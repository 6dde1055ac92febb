//! The deciding half of a streaming speech recognizer: raw audio goes in, recognized
//! text comes out, chunk by chunk.
//!
//! Whisper decodes a window of audio at a time. This crate does the buffering,
//! windowing and re-assembly around it: it cuts the audio into chunks, walks through
//! the windows of each, steers the decoding of a window token by token and attempt by
//! attempt, and hands out text with its time. The numerical work is the caller's:
//!
//! ```ignore
//! let mut stream = WhisperStreamBuilder::new()
//!     .model_size(ModelSize::TinyEn)
//!     .chunk_seconds(10.0f64.to_bits())
//!     .build_from_json(&config, tokenizer)?;
//! let mut action = stream.feed_pcm(&samples);
//! loop {
//!     action = match action {
//!         Action::Finished { chunks } => break,
//!         Action::Failed { message } => break,
//!         other => stream.resume(carry_out(other)),
//!     };
//! }
//! ```
//!
//! What a stream does is a function of its state and of the answers it gets; see
//! [`state::State`]. What each step comes to is
//! proved in [`promises`], and what holds over whole runs in [`laws`].
pub mod builder;
pub mod compression;
pub mod config;
pub mod decoding;
pub mod duration;
pub mod error;
pub mod ieee;
pub mod laws;
pub mod model;
pub mod promises;
pub mod protocol;
pub mod settings;
pub mod state;
pub mod stream;
pub mod timestamps;
pub mod tokenizer;

pub use builder::WhisperStreamBuilder;
pub use config::ModelConfig;
pub use error::BuildError;
pub use model::{ModelSize, Task};
pub use protocol::{Action, Event, TranscriptChunk};
pub use stream::WhisperStream;
