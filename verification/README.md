# whisper_stream

Streaming speech recognition with Whisper: raw PCM audio goes in, recognized text
comes out, chunk by chunk, as it becomes available.

- `src/` is the library, verified with Verus. It decides: how audio is cut into chunks
  and windows, which tokens may follow which, when a window is decoded again at a higher
  temperature, what is handed out and at which time. Floating-point numbers pass through
  it as bit patterns.
- `app/` computes: it fetches and loads the model, and carries out what the library asks
  for with candle.
- `tests/` runs the library on concrete values.

`src/state.rs` holds the model of a stream, and `src/laws.rs` what holds over whole runs.
