use vstd::prelude::*;

use crate::error::ApipError;

verus! {

/// Sample rate of the pipeline, in Hz.
pub const SAMPLE_RATE: u32 = 16_000;

/// Number of samples in one frame.
pub const FRAME_SAMPLES: usize = 512;

/// Duration of one frame in milliseconds (32 ms).
pub const FRAME_DURATION_MS: usize = 1_000 * FRAME_SAMPLES / 16_000;

/// A run of mono samples at a given rate. The library never reads a sample's
/// value, so it is generic over the sample type.
#[derive(Debug, Clone)]
pub struct AudioChunk<S> {
    pub samples: Vec<S>,
    pub sample_rate: u32,
    pub is_speech: bool,
}

/// A source of audio, read one chunk at a time.
pub trait AudioSource<S>: Send {
    fn read(&mut self) -> Result<AudioChunk<S>, ApipError>;
}

/// Collects batches of samples until they make up a chunk of at least
/// `chunk_size` samples.
pub struct ChunkCollector<S> {
    samples: Vec<S>,
    chunk_size: usize,
}

impl<S> ChunkCollector<S> {
    /// The samples collected so far, in order.
    pub closed spec fn collected(&self) -> Seq<S> {
        self.samples@
    }

    /// How many samples make a chunk.
    pub closed spec fn target(&self) -> nat {
        self.chunk_size as nat
    }

    pub fn new(chunk_size: usize) -> (c: Self)
        ensures
            c.collected() == Seq::<S>::empty(),
            c.target() == chunk_size,
    {
        ChunkCollector { samples: Vec::with_capacity(chunk_size), chunk_size }
    }

    /// Whether enough samples were collected.
    pub fn is_complete(&self) -> (b: bool)
        ensures
            b == (self.collected().len() >= self.target()),
    {
        self.samples.len() >= self.chunk_size
    }

    /// Adds a batch after the samples collected so far.
    pub fn add_batch(&mut self, batch: Vec<S>)
        ensures
            final(self).collected() == old(self).collected() + batch@,
            final(self).target() == old(self).target(),
    {
        let mut batch = batch;
        self.samples.append(&mut batch);
    }

    /// The collected samples as a chunk at `sample_rate`, not yet judged to
    /// be speech.
    pub fn into_chunk(self, sample_rate: u32) -> (chunk: AudioChunk<S>)
        ensures
            chunk.samples@ == self.collected(),
            chunk.sample_rate == sample_rate,
            !chunk.is_speech,
    {
        AudioChunk { samples: self.samples, sample_rate, is_speech: false }
    }
}

/// Number of samples that `duration_ms` milliseconds hold at `sample_rate` Hz.
pub fn chunk_size(sample_rate: u32, duration_ms: u32) -> (n: usize)
    requires
        sample_rate * duration_ms <= u32::MAX,
    ensures
        n == sample_rate * duration_ms / 1000,
{
    let product: u32 = sample_rate * duration_ms;
    (product / 1000) as usize
}

/// Appends a copy of every element of `src` to `dst`, in order.
pub fn extend_copied<S: Copy>(dst: &mut Vec<S>, src: &[S])
    ensures
        final(dst)@ == old(dst)@ + src@,
{
    let n: usize = src.len();
    let mut i: usize = 0;
    while i < n
        invariant
            n == src@.len(),
            i <= n,
            dst@ == old(dst)@ + src@.subrange(0, i as int),
        decreases n - i,
    {
        dst.push(src[i]);
        i = i + 1;
        assert(src@.subrange(0, i as int) == src@.subrange(0, i - 1).push(src@[i - 1]));
    }
    assert(src@.subrange(0, n as int) == src@);
}

/// A new vector holding a copy of every element of `src`, in order.
pub fn copy_samples<S: Copy>(src: &[S]) -> (v: Vec<S>)
    ensures
        v@ == src@,
{
    let mut v: Vec<S> = Vec::new();
    extend_copied(&mut v, src);
    v
}

} // verus!
