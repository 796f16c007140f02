use vstd::prelude::*;

verus! {

/// Errors of the audio pipeline.
#[derive(Debug, Clone, PartialEq, Eq)]
pub enum ApipError {
    /// The audio device could not be opened or configured.
    Device(String),
    /// A stream or channel failed while audio was flowing.
    Stream(String),
}

/// Errors of speech recognition.
#[derive(Debug, Clone, PartialEq, Eq)]
pub enum AsrError {
    /// The model could not be loaded from `path`.
    ModelLoad { path: String, reason: String },
    /// The recogniser state could not be created.
    StateCreation(String),
    /// The recogniser reported a failure.
    TranscriptionFailed(String),
    /// The audio was not at the rate the recogniser requires.
    InvalidSampleRate { expected: u32, got: u32 },
    /// The text of a segment could not be read.
    SegmentExtraction(String),
}

/// Errors of wake-word detection.
#[derive(Debug, Clone, PartialEq, Eq)]
pub enum WuwError {
    /// A model could not be loaded from `path`.
    ModelLoad { path: String, reason: String },
    /// The mel-spectrogram model failed.
    FeatureExtraction(String),
    /// The embedding model failed.
    EmbeddingInference(String),
    /// The keyword model failed.
    KeywordInference(String),
    /// A model received input of the wrong shape.
    ShapeMismatch { expected: String, got: String },
}

} // verus!
