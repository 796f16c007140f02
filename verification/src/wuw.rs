use vstd::prelude::*;

use std::collections::VecDeque;

use crate::capture::{copy_samples, extend_copied, AudioChunk, FRAME_SAMPLES, SAMPLE_RATE};
use crate::openwakeword::{EMBEDDING_WINDOW, MEL_SLIDE_SAMPLES, MEL_WINDOW_SAMPLES};
use crate::trigger::{Trigger, TriggerSource};

verus! {

/// `ring` after `item` is appended to it, where the ring holds at most
/// `cap` items and drops its oldest item first when it is full; a ring of
/// capacity zero holds nothing.
pub open spec fn ring_push<T>(ring: Seq<T>, item: T, cap: nat) -> Seq<T> {
    if cap == 0 {
        ring
    } else if ring.len() == cap {
        ring.drop_first().push(item)
    } else {
        ring.push(item)
    }
}

/// A ring of capacity `cap`, starting empty, after each of `items` was
/// appended in turn.
pub open spec fn ring_fill<T>(items: Seq<T>, cap: nat) -> Seq<T>
    decreases items.len(),
{
    if items.len() == 0 {
        Seq::empty()
    } else {
        ring_push(ring_fill(items.drop_last(), cap), items.last(), cap)
    }
}

/// Number of whole frames in `ms` milliseconds of audio.
pub open spec fn frames_in_ms(ms: nat) -> nat {
    ms * (SAMPLE_RATE as nat) / (1000 * (FRAME_SAMPLES as nat))
}

/// The abstract state of a [`WakeWord`].
pub struct WakeWordView<S, E> {
    /// Samples waiting for the mel-spectrogram model, oldest first.
    pub accumulator: Seq<S>,
    /// The sample debt: samples taken in and not yet slid past.
    pub slide_remainder: nat,
    /// The most recent embeddings, oldest first.
    pub embeddings: Seq<E>,
    /// The most recent raw frames, oldest first.
    pub preroll: Seq<Seq<S>>,
    /// How many frames the pre-roll keeps.
    pub preroll_frames: nat,
    /// How many frames of the pre-roll the wake word takes.
    pub wuw_frame_count: nat,
}

impl<S, E> WakeWordView<S, E> {
    /// The state after one frame of `samples` was taken in.
    pub open spec fn took_frame(self, samples: Seq<S>) -> WakeWordView<S, E> {
        WakeWordView {
            preroll: ring_push(self.preroll, samples, self.preroll_frames),
            accumulator: self.accumulator + samples,
            slide_remainder: self.slide_remainder + (FRAME_SAMPLES as nat),
            ..self
        }
    }

    /// The pre-roll and the embedding window never hold more than their
    /// capacity.
    pub open spec fn inv(self) -> bool {
        &&& self.preroll.len() <= self.preroll_frames
        &&& self.embeddings.len() <= EMBEDDING_WINDOW
    }

    /// A whole mel window is waiting.
    pub open spec fn window_ready(self) -> bool {
        self.accumulator.len() >= MEL_WINDOW_SAMPLES
    }

    /// Whether the debt has crossed one slide.
    pub open spec fn slide_owed(self) -> bool {
        self.slide_remainder >= MEL_SLIDE_SAMPLES
    }

    /// Number of samples a slide removes from the front of the accumulator:
    /// one slide's worth once the debt has crossed a slide, as far as the
    /// accumulator reaches, and none before.
    pub open spec fn slide_drain(self) -> nat {
        if !self.slide_owed() {
            0
        } else if MEL_SLIDE_SAMPLES <= self.accumulator.len() {
            MEL_SLIDE_SAMPLES as nat
        } else {
            self.accumulator.len()
        }
    }

    /// The state after an inference: the window moves forward by one slide
    /// once the debt has crossed a slide, and the debt is paid by a slide.
    pub open spec fn slid(self) -> WakeWordView<S, E> {
        WakeWordView {
            accumulator: self.accumulator.skip(self.slide_drain() as int),
            slide_remainder: if self.slide_owed() {
                (self.slide_remainder - MEL_SLIDE_SAMPLES) as nat
            } else {
                self.slide_remainder
            },
            ..self
        }
    }

    /// The state after `embedding` joined the embedding window.
    pub open spec fn took_embedding(self, embedding: E) -> WakeWordView<S, E> {
        WakeWordView {
            embeddings: ring_push(self.embeddings, embedding, EMBEDDING_WINDOW as nat),
            ..self
        }
    }

    /// Whether a full window of embeddings is available for the keyword model.
    pub open spec fn window_full(self) -> bool {
        self.embeddings.len() >= EMBEDDING_WINDOW
    }
}

/// The bookkeeping of wake-word detection: the audio waiting for the
/// mel-spectrogram model, the window of embeddings for the keyword model,
/// and the pre-roll of recent frames that an activation carries. The
/// models themselves are run by the caller, between the steps here:
///
/// 1. [`WakeWord::push_frame`]; if it returns `true`, run the mel and
///    embedding models on [`WakeWord::mel_window`];
/// 2. [`WakeWord::push_embedding`]; if it returns `true`, run the keyword
///    model on [`WakeWord::embedding_window`];
/// 3. [`WakeWord::finish_keyword`] with whether the score exceeded the
///    threshold.
///
/// A step whose model fails is left out, with the steps after it.
#[verifier::reject_recursive_types(S)]
#[verifier::reject_recursive_types(E)]
pub struct WakeWord<S, E> {
    audio_accumulator: Vec<S>,
    slide_remainder: usize,
    embedding_buffer: VecDeque<E>,
    preroll_buffer: VecDeque<Vec<S>>,
    preroll_frames: usize,
    wuw_frame_count: usize,
}

impl<S, E> View for WakeWord<S, E> {
    type V = WakeWordView<S, E>;

    closed spec fn view(&self) -> WakeWordView<S, E> {
        WakeWordView {
            accumulator: self.audio_accumulator@,
            slide_remainder: self.slide_remainder as nat,
            embeddings: self.embedding_buffer@,
            preroll: self.preroll_buffer@.map_values(|v: Vec<S>| v@),
            preroll_frames: self.preroll_frames as nat,
            wuw_frame_count: self.wuw_frame_count as nat,
        }
    }
}

/// Removes the first `n` elements of `v`.
fn remove_front<S: Copy>(v: &mut Vec<S>, n: usize)
    requires
        n <= old(v)@.len(),
    ensures
        final(v)@ == old(v)@.skip(n as int),
{
    let len: usize = v.len();
    let mut kept: Vec<S> = Vec::new();
    let mut i: usize = n;
    while i < len
        invariant
            n <= i <= len,
            len == v@.len(),
            v@ == old(v)@,
            kept@ == old(v)@.subrange(n as int, i as int),
        decreases len - i,
    {
        kept.push(v[i]);
        i = i + 1;
    }
    *v = kept;
}

impl<S: Copy, E: Copy> WakeWord<S, E> {
    /// Bookkeeping for a pre-roll of `preroll_ms` and a wake word lasting
    /// `wuw_duration_ms`, each counted in whole frames.
    pub fn new(preroll_ms: usize, wuw_duration_ms: usize) -> (w: Self)
        requires
            preroll_ms * SAMPLE_RATE <= usize::MAX,
            wuw_duration_ms * SAMPLE_RATE <= usize::MAX,
        ensures
            w@ == (WakeWordView::<S, E> {
                accumulator: Seq::empty(),
                slide_remainder: 0,
                embeddings: Seq::empty(),
                preroll: Seq::empty(),
                preroll_frames: frames_in_ms(preroll_ms as nat),
                wuw_frame_count: frames_in_ms(wuw_duration_ms as nat),
            }),
            w@.inv(),
    {
        let preroll_frames: usize = preroll_ms * SAMPLE_RATE as usize / (1_000 * FRAME_SAMPLES);
        let wuw_frame_count: usize = wuw_duration_ms * SAMPLE_RATE as usize / (1_000 * FRAME_SAMPLES);
        let w = WakeWord {
            audio_accumulator: Vec::with_capacity(MEL_WINDOW_SAMPLES),
            embedding_buffer: VecDeque::with_capacity(EMBEDDING_WINDOW),
            slide_remainder: 0,
            preroll_frames,
            preroll_buffer: VecDeque::with_capacity(preroll_frames),
            wuw_frame_count,
        };
        assert(w.preroll_buffer@.map_values(|v: Vec<S>| v@) =~= Seq::<Seq<S>>::empty());
        w
    }

    /// Number of samples waiting for the mel-spectrogram model.
    pub fn accumulated(&self) -> (n: usize)
        ensures
            n == self@.accumulator.len(),
    {
        self.audio_accumulator.len()
    }

    /// The sample debt: samples taken in while a whole mel window was
    /// waiting, not yet slid past.
    pub fn slide_remainder(&self) -> (n: usize)
        ensures
            n == self@.slide_remainder,
    {
        self.slide_remainder
    }

    /// Takes in one frame: it joins the pre-roll and the accumulator, and
    /// adds a frame to the sample debt that slides pay. Returns whether the
    /// accumulator now holds a whole mel window.
    pub fn push_frame(&mut self, chunk: &AudioChunk<S>) -> (ready: bool)
        requires
            old(self)@.slide_remainder + FRAME_SAMPLES <= usize::MAX,
        ensures
            final(self)@ == old(self)@.took_frame(chunk.samples@),
            ready == final(self)@.window_ready(),
            old(self)@.inv() ==> final(self)@.inv(),
    {
        if self.preroll_frames > 0 {
            let ghost pre = self.preroll_buffer@;
            if self.preroll_buffer.len() == self.preroll_frames {
                self.preroll_buffer.pop_front();
            }
            let ghost mid = self.preroll_buffer@;
            let frame = copy_samples(chunk.samples.as_slice());
            self.preroll_buffer.push_back(frame);
            proof {
                let f = |v: Vec<S>| v@;
                if pre.len() == self.preroll_frames {
                    assert(mid =~= pre.drop_first());
                    assert(pre.map_values(f).drop_first() =~= mid.map_values(f));
                } else {
                    assert(mid == pre);
                }
                assert(self.preroll_buffer@.map_values(f) =~= mid.map_values(f).push(chunk.samples@));
            }
        }
        extend_copied(&mut self.audio_accumulator, chunk.samples.as_slice());
        self.slide_remainder = self.slide_remainder + FRAME_SAMPLES;
        self.audio_accumulator.len() >= MEL_WINDOW_SAMPLES
    }

    /// The samples the mel-spectrogram model reads: the first window of the
    /// accumulator.
    pub fn mel_window(&self) -> (w: Vec<S>)
        requires
            self@.accumulator.len() >= MEL_WINDOW_SAMPLES,
        ensures
            w@ == self@.accumulator.subrange(0, MEL_WINDOW_SAMPLES as int),
    {
        let mut w: Vec<S> = Vec::with_capacity(MEL_WINDOW_SAMPLES);
        let mut i: usize = 0;
        while i < MEL_WINDOW_SAMPLES
            invariant
                i <= MEL_WINDOW_SAMPLES <= self.audio_accumulator@.len(),
                w@ == self.audio_accumulator@.subrange(0, i as int),
            decreases MEL_WINDOW_SAMPLES - i,
        {
            w.push(self.audio_accumulator[i]);
            i = i + 1;
        }
        w
    }

    /// Moves the window forward by one slide after an inference, once the
    /// sample debt has crossed a slide.
    fn slide_accumulator(&mut self)
        ensures
            final(self)@ == old(self)@.slid(),
    {
        if self.slide_remainder >= MEL_SLIDE_SAMPLES {
            let len: usize = self.audio_accumulator.len();
            let drain: usize = if MEL_SLIDE_SAMPLES <= len {
                MEL_SLIDE_SAMPLES
            } else {
                len
            };
            remove_front(&mut self.audio_accumulator, drain);
            self.slide_remainder = self.slide_remainder - MEL_SLIDE_SAMPLES;
        } else {
            assert(self.audio_accumulator@.skip(0) =~= self.audio_accumulator@);
        }
    }

    /// Takes in an embedding computed from the mel window. Returns whether
    /// the embedding window is full; when it is not, the accumulator slides
    /// forward at once.
    pub fn push_embedding(&mut self, embedding: E) -> (full: bool)
        ensures
            full == old(self)@.took_embedding(embedding).window_full(),
            old(self)@.inv() ==> final(self)@.inv() && (full <==> final(self)@.embeddings.len()
                == EMBEDDING_WINDOW),
            final(self)@ == (if full {
                old(self)@.took_embedding(embedding)
            } else {
                old(self)@.took_embedding(embedding).slid()
            }),
    {
        let ghost pre = self.embedding_buffer@;
        if self.embedding_buffer.len() == EMBEDDING_WINDOW {
            self.embedding_buffer.pop_front();
        }
        self.embedding_buffer.push_back(embedding);
        proof {
            if pre.len() == EMBEDDING_WINDOW {
                assert(self.embedding_buffer@ =~= pre.drop_first().push(embedding));
            }
            assert(self@ == old(self)@.took_embedding(embedding));
        }
        if self.embedding_buffer.len() < EMBEDDING_WINDOW {
            self.slide_accumulator();
            return false;
        }
        true
    }

    /// The embeddings the keyword model reads, oldest first.
    pub fn embedding_window(&self) -> (w: Vec<E>)
        ensures
            w@ == self@.embeddings,
    {
        let n: usize = self.embedding_buffer.len();
        let mut w: Vec<E> = Vec::with_capacity(n);
        let mut i: usize = 0;
        while i < n
            invariant
                i <= n == self.embedding_buffer@.len(),
                w@ == self.embedding_buffer@.subrange(0, i as int),
            decreases n - i,
        {
            w.push(self.embedding_buffer[i]);
            i = i + 1;
        }
        w
    }

    /// Takes in whether the keyword model's score exceeded the threshold.
    /// The accumulator slides forward; when the wake word was heard, the
    /// activation carries the pre-roll.
    pub fn finish_keyword(&mut self, detected: bool) -> (t: Option<Trigger<S>>)
        ensures
            final(self)@ == old(self)@.slid(),
            old(self)@.inv() ==> final(self)@.inv(),
            detected <==> t is Some,
            t matches Some(t) ==> t.source == TriggerSource::WakeWord && final(self)@.carries(t),
    {
        self.slide_accumulator();
        if detected {
            Some(self.build_trigger(TriggerSource::WakeWord))
        } else {
            None
        }
    }

    /// An activation from push-to-talk, carrying the current pre-roll,
    /// without running any model.
    pub fn push_to_talk(&self) -> (t: Trigger<S>)
        ensures
            t.source == TriggerSource::PTT,
            self@.carries(t),
    {
        self.build_trigger(TriggerSource::PTT)
    }

    fn build_trigger(&self, source: TriggerSource) -> (t: Trigger<S>)
        ensures
            t.source == source,
            self@.carries(t),
    {
        let ghost frames = self@.preroll;
        let n: usize = self.preroll_buffer.len();
        let mut samples: Vec<S> = Vec::new();
        let mut i: usize = 0;
        while i < n
            invariant
                i <= n == frames.len(),
                frames == self@.preroll,
                samples@ == frames.subrange(0, i as int).flatten(),
            decreases n - i,
        {
            extend_copied(&mut samples, self.preroll_buffer[i].as_slice());
            proof {
                assert(frames.subrange(0, i + 1) =~= frames.subrange(0, i as int).push(frames[i as int]));
                frames.subrange(0, i as int).lemma_flatten_push(frames[i as int]);
            }
            i = i + 1;
        }
        assert(frames.subrange(0, n as int) =~= frames);
        Trigger {
            source,
            preroll: AudioChunk { samples, sample_rate: SAMPLE_RATE, is_speech: true },
            wuw_frame_count: self.wuw_frame_count,
        }
    }
}

impl<S, E> WakeWordView<S, E> {
    /// `t` carries this state's pre-roll: all its frames joined in order, at
    /// the pipeline's rate, marked as speech, with the wake word's length.
    pub open spec fn carries(self, t: Trigger<S>) -> bool {
        &&& t.preroll.samples@ == self.preroll.flatten()
        &&& t.preroll.sample_rate == SAMPLE_RATE
        &&& t.preroll.is_speech
        &&& t.wuw_frame_count == self.wuw_frame_count
    }
}

/// The pre-roll and the embedding window keep the most recent items: a ring
/// of capacity `cap` that was handed `items` one after the other holds the
/// last `cap` of them in order (all of them while there are fewer, none
/// when the capacity is zero); handing it one more item gives the ring of
/// the longer sequence.
pub proof fn lemma_ring_keeps_latest<T>(items: Seq<T>, item: T, cap: nat)
    ensures
        ring_push(ring_fill(items, cap), item, cap) == ring_fill(items.push(item), cap),
        ring_fill(items, cap) == items.subrange(
            if items.len() > cap { items.len() - cap } else { 0 },
            items.len() as int,
        ),
    decreases items.len(),
{
    assert(items.push(item).drop_last() =~= items);
    if items.len() > 0 {
        let prefix = items.drop_last();
        lemma_ring_keeps_latest(prefix, items.last(), cap);
        assert(prefix.push(items.last()) =~= items);
        let n: int = items.len() as int;
        let r = ring_fill(prefix, cap);
        if cap == 0 {
            assert(r =~= items.subrange(n, n));
        } else if prefix.len() >= cap {
            assert(r.len() == cap);
            assert(r.drop_first().push(items.last()) =~= items.subrange(n - cap, n));
        } else {
            assert(r =~= prefix);
            assert(r.push(items.last()) =~= items.subrange(0, n));
        }
    } else {
        assert(ring_fill(items, cap) =~= Seq::<T>::empty());
        assert(items.subrange(0, 0) =~= Seq::<T>::empty());
    }
}

/// The state after each of `frames` was taken in, in order, with no model
/// run in between.
pub open spec fn took_frames<S, E>(v: WakeWordView<S, E>, frames: Seq<Seq<S>>) -> WakeWordView<S, E>
    decreases frames.len(),
{
    if frames.len() == 0 {
        v
    } else {
        took_frames(v, frames.drop_last()).took_frame(frames.last())
    }
}

/// All the frames have `FRAME_SAMPLES` samples.
pub open spec fn whole_frames<S>(frames: Seq<Seq<S>>) -> bool {
    forall|i: int| 0 <= i < frames.len() ==> #[trigger] frames[i].len() == FRAME_SAMPLES
}

/// Warm-up: from an empty accumulator with no debt, the first 23 frames of
/// `FRAME_SAMPLES` samples leave no mel window ready; the 24th makes the
/// first window ready. The debt keeps step with the accumulator.
pub proof fn lemma_warm_up<S, E>(v: WakeWordView<S, E>, frames: Seq<Seq<S>>)
    requires
        v.accumulator.len() == 0,
        v.slide_remainder == 0,
        whole_frames(frames),
        frames.len() <= 24,
    ensures
        took_frames(v, frames).accumulator.len() == FRAME_SAMPLES * frames.len(),
        took_frames(v, frames).slide_remainder == FRAME_SAMPLES * frames.len(),
        took_frames(v, frames).window_ready() <==> frames.len() == 24,
    decreases frames.len(),
{
    assert(MEL_WINDOW_SAMPLES == 12160);
    if frames.len() > 0 {
        let prefix = frames.drop_last();
        assert forall|i: int| 0 <= i < prefix.len() implies #[trigger] prefix[i].len() == FRAME_SAMPLES by {
            assert(prefix[i] == frames[i]);
        }
        assert(frames.last() == frames[frames.len() - 1]);
        lemma_warm_up(v, prefix);
    }
}

/// The window keeps step: while the debt equals what the accumulator holds
/// and no window is waiting (as from an empty start), a frame of
/// `FRAME_SAMPLES` samples keeps the debt equal to the accumulator; when it
/// makes a window ready, the inference on that window is followed by a
/// slide of exactly `MEL_SLIDE_SAMPLES`, after which no window is waiting
/// until more frames come. So each window the models read starts exactly
/// one slide after the one before, and no window is read twice.
pub proof fn lemma_each_inference_moves_one_slide<S, E>(v: WakeWordView<S, E>, samples: Seq<S>)
    requires
        v.accumulator.len() == v.slide_remainder,
        !v.window_ready(),
        samples.len() == FRAME_SAMPLES,
    ensures
        v.took_frame(samples).accumulator.len() == v.took_frame(samples).slide_remainder,
        v.took_frame(samples).window_ready() ==> {
            let w = v.took_frame(samples);
            &&& w.slide_drain() == MEL_SLIDE_SAMPLES
            &&& w.slid().accumulator == w.accumulator.skip(MEL_SLIDE_SAMPLES as int)
            &&& w.slid().accumulator.len() == w.slid().slide_remainder
            &&& !w.slid().window_ready()
        },
{
    assert(MEL_SLIDE_SAMPLES == 1280);
    assert(MEL_WINDOW_SAMPLES == 12160);
}

/// A duration in milliseconds counts as many whole frames as whole frame
/// durations (32 ms) fit in it.
pub proof fn lemma_frames_in_ms(ms: nat)
    ensures
        frames_in_ms(ms) == ms / (crate::capture::FRAME_DURATION_MS as nat),
{
    let q: nat = ms / 32;
    let r: nat = ms % 32;
    assert(ms == 32 * q + r && 0 <= r < 32) by {
        vstd::arithmetic::div_mod::lemma_fundamental_div_mod(ms as int, 32);
    }
    assert(ms * 16000 == q * 512000 + r * 16000) by (nonlinear_arith)
        requires
            ms == 32 * q + r,
    ;
    assert(0 <= r * 16000 < 512000) by (nonlinear_arith)
        requires
            0 <= r < 32,
    ;
    vstd::arithmetic::div_mod::lemma_fundamental_div_mod_converse(
        (ms * 16000) as int,
        512000,
        q as int,
        (r * 16000) as int,
    );
}

/// A slide pays one slide of the debt once the debt has crossed a slide:
/// the samples slid past are exactly the front of the accumulator, one
/// slide of them when the accumulator holds that many; before the debt has
/// crossed a slide, nothing moves.
pub proof fn lemma_slide_pays_debt<S, E>(v: WakeWordView<S, E>)
    ensures
        v.accumulator == v.accumulator.subrange(0, v.slide_drain() as int) + v.slid().accumulator,
        v.slide_owed() && v.accumulator.len() >= MEL_SLIDE_SAMPLES ==> v.slide_drain()
            == MEL_SLIDE_SAMPLES && v.slid().slide_remainder + MEL_SLIDE_SAMPLES == v.slide_remainder,
        !v.slide_owed() ==> v.slid() == v,
{
    assert(v.accumulator =~= v.accumulator.subrange(0, v.slide_drain() as int) + v.slid().accumulator);
    if !v.slide_owed() {
        assert(v.accumulator.skip(0) =~= v.accumulator);
    }
}

/// One step of the bookkeeping, as the caller drives it: a frame taken in,
/// an embedding taken in, or the slide after an inference.
pub enum WakeStep<S, E> {
    Frame(Seq<S>),
    Embedding(E),
    Slide,
}

/// The state after one step.
pub open spec fn apply_step<S, E>(v: WakeWordView<S, E>, step: WakeStep<S, E>) -> WakeWordView<S, E> {
    match step {
        WakeStep::Frame(samples) => v.took_frame(samples),
        WakeStep::Embedding(e) => v.took_embedding(e),
        WakeStep::Slide => v.slid(),
    }
}

/// The state after each of `steps`, in order.
pub open spec fn apply_steps<S, E>(v: WakeWordView<S, E>, steps: Seq<WakeStep<S, E>>) -> WakeWordView<S, E>
    decreases steps.len(),
{
    if steps.len() == 0 {
        v
    } else {
        apply_step(apply_steps(v, steps.drop_last()), steps.last())
    }
}

/// The frames among `steps`, in order.
pub open spec fn frames_of<S, E>(steps: Seq<WakeStep<S, E>>) -> Seq<Seq<S>>
    decreases steps.len(),
{
    if steps.len() == 0 {
        Seq::empty()
    } else {
        match steps.last() {
            WakeStep::Frame(samples) => frames_of(steps.drop_last()).push(samples),
            _ => frames_of(steps.drop_last()),
        }
    }
}

/// The embeddings among `steps`, in order.
pub open spec fn embeddings_of<S, E>(steps: Seq<WakeStep<S, E>>) -> Seq<E>
    decreases steps.len(),
{
    if steps.len() == 0 {
        Seq::empty()
    } else {
        match steps.last() {
            WakeStep::Embedding(e) => embeddings_of(steps.drop_last()).push(e),
            _ => embeddings_of(steps.drop_last()),
        }
    }
}

/// The last `cap` items of `items` (all of them while there are fewer).
pub open spec fn last_n<T>(items: Seq<T>, cap: nat) -> Seq<T> {
    items.subrange(if items.len() > cap { items.len() - cap } else { 0 }, items.len() as int)
}

proof fn lemma_steps_are_rings<S, E>(v: WakeWordView<S, E>, steps: Seq<WakeStep<S, E>>)
    requires
        v.preroll.len() == 0,
        v.embeddings.len() == 0,
    ensures
        apply_steps(v, steps).preroll == ring_fill(frames_of(steps), v.preroll_frames),
        apply_steps(v, steps).embeddings == ring_fill(embeddings_of(steps), EMBEDDING_WINDOW as nat),
        apply_steps(v, steps).preroll_frames == v.preroll_frames,
        apply_steps(v, steps).wuw_frame_count == v.wuw_frame_count,
    decreases steps.len(),
{
    if steps.len() == 0 {
        assert(ring_fill(Seq::<Seq<S>>::empty(), v.preroll_frames) == Seq::<Seq<S>>::empty());
        assert(ring_fill(Seq::<E>::empty(), EMBEDDING_WINDOW as nat) == Seq::<E>::empty());
        assert(v.preroll =~= Seq::<Seq<S>>::empty());
        assert(v.embeddings =~= Seq::<E>::empty());
    } else {
        let prev = steps.drop_last();
        lemma_steps_are_rings(v, prev);
        match steps.last() {
            WakeStep::Frame(samples) => {
                lemma_ring_keeps_latest(frames_of(prev), samples, v.preroll_frames);
            },
            WakeStep::Embedding(e) => {
                lemma_ring_keeps_latest(embeddings_of(prev), e, EMBEDDING_WINDOW as nat);
            },
            WakeStep::Slide => {},
        }
    }
}

/// What the bookkeeping keeps, over any sequence of steps from a start with
/// no pre-roll and no embeddings: the pre-roll is the last `preroll_frames`
/// frames taken in, the embedding window is the last `EMBEDDING_WINDOW`
/// embeddings taken in, whatever slides came between, and the settings
/// never change. So every activation carries the most recent frames and
/// the wake word's length fixed at construction, and the keyword model
/// reads the most recent embeddings.
pub proof fn lemma_steps_keep_latest<S, E>(v: WakeWordView<S, E>, steps: Seq<WakeStep<S, E>>)
    requires
        v.preroll.len() == 0,
        v.embeddings.len() == 0,
    ensures
        apply_steps(v, steps).preroll == last_n(frames_of(steps), v.preroll_frames),
        apply_steps(v, steps).embeddings == last_n(embeddings_of(steps), EMBEDDING_WINDOW as nat),
        apply_steps(v, steps).preroll_frames == v.preroll_frames,
        apply_steps(v, steps).wuw_frame_count == v.wuw_frame_count,
{
    lemma_steps_are_rings(v, steps);
    if frames_of(steps).len() > 0 {
        lemma_ring_keeps_latest(frames_of(steps).drop_last(), frames_of(steps).last(), v.preroll_frames);
        assert(frames_of(steps).drop_last().push(frames_of(steps).last()) =~= frames_of(steps));
    } else {
        assert(frames_of(steps) =~= Seq::<Seq<S>>::empty());
        assert(ring_fill(frames_of(steps), v.preroll_frames) =~= last_n(frames_of(steps), v.preroll_frames));
    }
    if embeddings_of(steps).len() > 0 {
        lemma_ring_keeps_latest(embeddings_of(steps).drop_last(), embeddings_of(steps).last(), EMBEDDING_WINDOW as nat);
        assert(embeddings_of(steps).drop_last().push(embeddings_of(steps).last()) =~= embeddings_of(steps));
    } else {
        assert(embeddings_of(steps) =~= Seq::<E>::empty());
        assert(ring_fill(embeddings_of(steps), EMBEDDING_WINDOW as nat) =~= last_n(embeddings_of(steps), EMBEDDING_WINDOW as nat));
    }
}

/// Each step touches only its own part of the state: a frame never changes
/// the embedding window or the settings; an embedding never changes the
/// audio, the debt, the pre-roll or the settings; a slide never changes
/// the embeddings, the pre-roll or the settings, and removes samples only
/// from the front of the accumulator.
pub proof fn lemma_steps_touch_only_their_part<S, E>(v: WakeWordView<S, E>, samples: Seq<S>, e: E)
    ensures
        v.took_frame(samples).embeddings == v.embeddings,
        v.took_frame(samples).accumulator == v.accumulator + samples,
        v.took_frame(samples).preroll_frames == v.preroll_frames,
        v.took_frame(samples).wuw_frame_count == v.wuw_frame_count,
        v.took_embedding(e).accumulator == v.accumulator,
        v.took_embedding(e).slide_remainder == v.slide_remainder,
        v.took_embedding(e).preroll == v.preroll,
        v.took_embedding(e).preroll_frames == v.preroll_frames,
        v.took_embedding(e).wuw_frame_count == v.wuw_frame_count,
        v.slid().embeddings == v.embeddings,
        v.slid().preroll == v.preroll,
        v.slid().preroll_frames == v.preroll_frames,
        v.slid().wuw_frame_count == v.wuw_frame_count,
        v.slid().accumulator.len() <= v.accumulator.len(),
        v.slid().accumulator == v.accumulator.subrange(
            v.accumulator.len() - v.slid().accumulator.len(),
            v.accumulator.len() as int,
        ),
{
    assert(v.slid().accumulator =~= v.accumulator.subrange(
        v.accumulator.len() - v.slid().accumulator.len(),
        v.accumulator.len() as int,
    ));
}

/// An activation carries the pre-roll in order: its samples are those of
/// the older frames followed by those of the most recent frame, at the
/// pipeline's rate, marked as speech.
pub proof fn lemma_trigger_ends_with_latest_frame<S, E>(v: WakeWordView<S, E>, t: Trigger<S>)
    requires
        v.carries(t),
        v.preroll.len() > 0,
    ensures
        t.preroll.samples@ == v.preroll.drop_last().flatten() + v.preroll.last(),
        t.preroll.samples@.len() >= v.preroll.last().len(),
        t.preroll.sample_rate == 16000,
        t.preroll.is_speech,
        t.wuw_frame_count == v.wuw_frame_count,
{
    v.preroll.drop_last().lemma_flatten_push(v.preroll.last());
    assert(v.preroll.drop_last().push(v.preroll.last()) =~= v.preroll);
}

} // verus!
