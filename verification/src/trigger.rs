use vstd::prelude::*;

use crate::capture::AudioChunk;

verus! {

/// What caused an activation.
#[derive(Debug, Clone, Copy, PartialEq, Eq, Structural)]
pub enum TriggerSource {
    /// The keyword model heard the wake word.
    WakeWord,
    /// Push-to-talk was pressed.
    PTT,
}

/// An activation, with the audio that preceded it.
#[derive(Debug, Clone)]
pub struct Trigger<S> {
    pub source: TriggerSource,
    /// The whole pre-roll at the moment of activation: the wake word itself
    /// in its first `wuw_frame_count` frames, then what followed it.
    pub preroll: AudioChunk<S>,
    /// Number of frames at the start of `preroll` that hold the wake word.
    pub wuw_frame_count: usize,
}

} // verus!
