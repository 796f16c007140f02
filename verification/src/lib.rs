//! The audio front end of a voice assistant: cutting speech into
//! utterances, the bookkeeping of wake-word detection, and the checks
//! around speech recognition, with their contracts proved in Verus.
pub mod capture;
pub mod chunker;
pub mod chunker_laws;
pub mod error;
pub mod openwakeword;
pub mod transcriber;
pub mod trigger;
pub mod vad;
pub mod wuw;

pub use capture::{AudioChunk, FRAME_DURATION_MS, FRAME_SAMPLES, SAMPLE_RATE};
pub use error::{ApipError, AsrError, WuwError};
