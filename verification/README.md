# jafarvis

The audio front end of a voice assistant, as a Verus library with an
ordinary Rust program around it.

`src/` (verified):

- `capture` — frame constants, `AudioChunk`, the chunk size of a capture
  and the collector that assembles a chunk from device batches.
- `chunker` — cuts a stream of frames marked speech or silence into
  utterances and hands them to a tokio channel, keeping a record of the
  utterances the channel accepted. `chunker_laws` proves what a run of
  frames does when the channel takes every utterance (no sample lost or
  reordered, when trailing silence ends an utterance, how continuous
  speech is cut); a successful `Chunker::push` is exactly one step of such
  a run, and what it adds to the record is what the step hands on.
- `wuw`, `trigger`, `openwakeword` — the bookkeeping of wake-word
  detection: pre-roll ring, mel accumulator and its sliding (one slide
  after each inference once the sample debt has crossed a slide, so each
  window the models read starts one slide after the one before), embedding window,
  activations.
- `transcriber` — the checks and text assembly around speech recognition.
- `error`, `vad` — the error types and the voice-activity decision.

The library is generic over the sample type; it never reads a sample's
value. The models (onnxruntime), resampling (rubato), microphone capture
(cpal), whisper.cpp and everything that computes on float samples live in
`app/`, which drives the library's steps.
