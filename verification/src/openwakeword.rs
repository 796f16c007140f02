use vstd::prelude::*;

verus! {

/// Frames of the mel-spectrogram window that the embedding model reads.
pub const MEL_WINDOW_FRAMES: usize = 76;

/// Samples per mel frame.
pub const MEL_HOP_SAMPLES: usize = 160;

/// Samples the mel-spectrogram model reads at once.
pub const MEL_WINDOW_SAMPLES: usize = MEL_WINDOW_FRAMES * MEL_HOP_SAMPLES;

/// Mel frames the window moves forward after each embedding.
pub const MEL_SLIDE_FRAMES: usize = 8;

/// Samples the window moves forward after each embedding.
pub const MEL_SLIDE_SAMPLES: usize = MEL_SLIDE_FRAMES * MEL_HOP_SAMPLES;

/// Mel filterbank bins, fixed by the embedding model.
pub const MEL_BINS: usize = 32;

/// Length of one embedding vector.
pub const EMBEDDING_DIM: usize = 96;

/// Number of embeddings the keyword model reads at once.
pub const EMBEDDING_WINDOW: usize = 16;

} // verus!
