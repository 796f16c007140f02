use vstd::prelude::*;

use crate::chunker::{ChunkerState, ChunkerView};
use crate::vad::VadDecision;

verus! {

/// A sequence of frames, each with its decision, taken in one after the
/// other while the channel takes every utterance: the final state and all
/// the utterances handed on, in order.
pub open spec fn run<S>(v: ChunkerView<S>, frames: Seq<(Seq<S>, VadDecision)>) -> (ChunkerView<S>, Seq<Seq<S>>)
    decreases frames.len(),
{
    if frames.len() == 0 {
        (v, Seq::empty())
    } else {
        let (v1, out1) = v.step(frames[0].0, frames[0].1);
        let (vn, outs) = run(v1, frames.drop_first());
        (vn, out1 + outs)
    }
}

/// The samples of `frames` that the buffer keeps along that run.
pub open spec fn kept_samples<S>(v: ChunkerView<S>, frames: Seq<(Seq<S>, VadDecision)>) -> Seq<S>
    decreases frames.len(),
{
    if frames.len() == 0 {
        Seq::empty()
    } else {
        v.kept(frames[0].0, frames[0].1) + kept_samples(v.step(frames[0].0, frames[0].1).0, frames.drop_first())
    }
}

/// All the frames are silence.
pub open spec fn all_silence<S>(frames: Seq<(Seq<S>, VadDecision)>) -> bool {
    forall|i: int| 0 <= i < frames.len() ==> #[trigger] frames[i].1 == VadDecision::Silence
}

/// All the frames are speech.
pub open spec fn all_speech<S>(frames: Seq<(Seq<S>, VadDecision)>) -> bool {
    forall|i: int| 0 <= i < frames.len() ==> #[trigger] frames[i].1 == VadDecision::Speech
}

/// No sample is lost, duplicated or reordered: the utterances handed on,
/// joined, followed by what is still buffered, are exactly what was
/// buffered before followed by the samples the run keeps.
pub proof fn lemma_run_conserves_samples<S>(v: ChunkerView<S>, frames: Seq<(Seq<S>, VadDecision)>)
    ensures
        run(v, frames).1.flatten() + run(v, frames).0.buffer == v.buffer + kept_samples(v, frames),
    decreases frames.len(),
{
    if frames.len() == 0 {
        assert(run(v, frames).1 =~= Seq::<Seq<S>>::empty());
        assert(Seq::<Seq<S>>::empty().flatten() =~= Seq::<S>::empty());
        assert(kept_samples(v, frames) =~= Seq::<S>::empty());
        assert(run(v, frames).1.flatten() + run(v, frames).0.buffer =~= v.buffer + kept_samples(v, frames));
    } else {
        let (v1, out1) = v.step(frames[0].0, frames[0].1);
        let rest = frames.drop_first();
        lemma_run_conserves_samples(v1, rest);
        let (vn, outs) = run(v1, rest);
        vstd::seq_lib::lemma_flatten_concat(out1, outs);
        let next = v.advance(frames[0].0, frames[0].1);
        assert(next.buffer =~= v.buffer + v.kept(frames[0].0, frames[0].1));
        if v.emit_due(frames[0].1) {
            assert(out1 =~= seq![next.buffer]);
            seq![next.buffer].lemma_flatten_singleton();
            assert(v1.buffer =~= Seq::<S>::empty());
        } else {
            assert(out1 =~= Seq::<Seq<S>>::empty());
            assert(Seq::<Seq<S>>::empty().flatten() =~= Seq::<S>::empty());
        }
        assert(out1.flatten() + outs.flatten() + vn.buffer =~= v.buffer + kept_samples(v, frames));
    }
}

/// Silence while no utterance is open changes nothing and hands nothing on.
pub proof fn lemma_silence_stays_idle<S>(v: ChunkerView<S>, frames: Seq<(Seq<S>, VadDecision)>)
    requires
        v.state == ChunkerState::Silence,
        all_silence(frames),
    ensures
        run(v, frames).0 == v,
        run(v, frames).1.len() == 0,
    decreases frames.len(),
{
    if frames.len() > 0 {
        assert(frames[0].1 == VadDecision::Silence);
        let rest = frames.drop_first();
        assert forall|i: int| 0 <= i < rest.len() implies #[trigger] rest[i].1 == VadDecision::Silence by {
            assert(rest[i] == frames[i + 1]);
        }
        lemma_silence_stays_idle(v, rest);
    }
}

/// From trailing silence with `s` frames of silence counted, a run of `n`
/// silent frames hands the utterance on exactly when `n` reaches
/// `max(1, trailing_silence_frames - s)`, and then rests in silence.
proof fn lemma_trailing_run<S>(v: ChunkerView<S>, frames: Seq<(Seq<S>, VadDecision)>)
    requires
        v.state == ChunkerState::TrailingSilence,
        all_silence(frames),
        v.silence_frame_count + frames.len() <= u32::MAX,
        v.utterance_frame_count + frames.len() <= u32::MAX,
    ensures
        ({
            let due_at: int = if v.trailing_silence_frames > v.silence_frame_count + 1 {
                v.trailing_silence_frames - v.silence_frame_count
            } else {
                1
            };
            &&& run(v, frames).1.len() == (if frames.len() >= due_at { 1int } else { 0int })
            &&& frames.len() >= due_at ==> run(v, frames).0.state == ChunkerState::Silence
            &&& frames.len() < due_at ==> run(v, frames).0.state == ChunkerState::TrailingSilence
        }),
    decreases frames.len(),
{
    if frames.len() > 0 {
        assert(frames[0].1 == VadDecision::Silence);
        let rest = frames.drop_first();
        assert forall|i: int| 0 <= i < rest.len() implies #[trigger] rest[i].1 == VadDecision::Silence by {
            assert(rest[i] == frames[i + 1]);
        }
        let (v1, out1) = v.step(frames[0].0, frames[0].1);
        if v.emit_due(frames[0].1) {
            lemma_silence_stays_idle(v1, rest);
        } else {
            lemma_trailing_run(v1, rest);
        }
    }
}

/// An utterance ends after its trailing silence: once speech stops, a run
/// of `n` silent frames hands the utterance on exactly when `n` reaches
/// `max(2, trailing_silence_frames)`; after that the chunker rests in
/// silence.
pub proof fn lemma_trailing_silence_ends_utterance<S>(v: ChunkerView<S>, frames: Seq<(Seq<S>, VadDecision)>)
    requires
        v.state == ChunkerState::Speaking,
        all_silence(frames),
        frames.len() <= u32::MAX,
        v.utterance_frame_count + frames.len() <= u32::MAX,
    ensures
        ({
            let due_at: int = if v.trailing_silence_frames > 2 { v.trailing_silence_frames as int } else { 2 };
            &&& run(v, frames).1.len() == (if frames.len() >= due_at { 1int } else { 0int })
            &&& frames.len() >= due_at ==> run(v, frames).0.state == ChunkerState::Silence
        }),
{
    if frames.len() > 0 {
        assert(frames[0].1 == VadDecision::Silence);
        let rest = frames.drop_first();
        assert forall|i: int| 0 <= i < rest.len() implies #[trigger] rest[i].1 == VadDecision::Silence by {
            assert(rest[i] == frames[i + 1]);
        }
        lemma_trailing_run(v.step(frames[0].0, frames[0].1).0, rest);
    }
}

/// The frame limit of an utterance: `max_utterance_frames`, but never less
/// than two, since the first frame of an utterance is never checked.
pub open spec fn utterance_limit<S>(v: ChunkerView<S>) -> int {
    if v.max_utterance_frames > 2 {
        v.max_utterance_frames as int
    } else {
        2
    }
}

/// Frames of the open utterance: none in silence, the count while speaking.
pub open spec fn open_frames<S>(v: ChunkerView<S>) -> int {
    if v.state == ChunkerState::Silence {
        0
    } else {
        v.utterance_frame_count as int
    }
}

/// Continuous speech is cut into utterances of `utterance_limit` frames:
/// from silence, or from an utterance of `c` frames still under the limit,
/// a run of `n` speech frames hands on `(c + n) / limit` utterances and
/// leaves an utterance of `(c + n) % limit` frames open (none when that is
/// zero).
pub proof fn lemma_speech_is_cut_at_limit<S>(v: ChunkerView<S>, frames: Seq<(Seq<S>, VadDecision)>)
    requires
        v.inv(),
        v.state == ChunkerState::Silence || (v.state == ChunkerState::Speaking && 1
            <= v.utterance_frame_count < utterance_limit(v)),
        all_speech(frames),
    ensures
        ({
            let limit: int = utterance_limit(v);
            let total: int = open_frames(v) + frames.len();
            let w = run(v, frames).0;
            &&& run(v, frames).1.len() == total / limit
            &&& total % limit == 0 ==> w.state == ChunkerState::Silence
            &&& total % limit != 0 ==> w.state == ChunkerState::Speaking
                && w.utterance_frame_count == total % limit
            &&& w.max_utterance_frames == v.max_utterance_frames
            &&& w.inv()
        }),
    decreases frames.len(),
{
    let limit: int = utterance_limit(v);
    let c: int = open_frames(v);
    if frames.len() == 0 {
        if v.state == ChunkerState::Silence {
            assert(0int / limit == 0 && 0int % limit == 0) by (nonlinear_arith)
                requires
                    limit >= 2,
            ;
        } else {
            assert(c / limit == 0 && c % limit == c) by (nonlinear_arith)
                requires
                    1 <= c < limit,
            ;
        }
    } else {
        assert(frames[0].1 == VadDecision::Speech);
        let rest = frames.drop_first();
        assert forall|i: int| 0 <= i < rest.len() implies #[trigger] rest[i].1 == VadDecision::Speech by {
            assert(rest[i] == frames[i + 1]);
        }
        let (v1, out1) = v.step(frames[0].0, frames[0].1);
        assert(utterance_limit(v1) == limit);
        lemma_speech_is_cut_at_limit(v1, rest);
        let n: int = frames.len() as int;
        if v.emit_due(frames[0].1) {
            assert(c + 1 == limit);
            assert(out1.len() == 1);
            assert(open_frames(v1) == 0);
            assert((c + n) / limit == 1 + (n - 1) / limit && (c + n) % limit == (n - 1) % limit)
                by (nonlinear_arith)
                requires
                    c + 1 == limit,
                    limit >= 2,
                    n >= 1,
            {
                vstd::arithmetic::div_mod::lemma_div_plus_one(n - 1, limit);
                vstd::arithmetic::div_mod::lemma_mod_add_multiples_vanish(n - 1, limit);
            }
        } else {
            assert(out1.len() == 0);
            assert(open_frames(v1) == c + 1);
        }
    }
}

/// A run hands on at most one utterance per frame, and never changes the
/// chunker's settings: each utterance taken out along the run (by
/// `Chunker::take_frame`) carries the rate the chunker was made with.
pub proof fn lemma_run_keeps_settings<S>(v: ChunkerView<S>, frames: Seq<(Seq<S>, VadDecision)>)
    ensures
        run(v, frames).1.len() <= frames.len(),
        run(v, frames).0.sample_rate == v.sample_rate,
        run(v, frames).0.trailing_silence_frames == v.trailing_silence_frames,
        run(v, frames).0.max_utterance_frames == v.max_utterance_frames,
    decreases frames.len(),
{
    if frames.len() > 0 {
        lemma_run_keeps_settings(v.step(frames[0].0, frames[0].1).0, frames.drop_first());
    }
}

/// The length limit applies to every speech frame of an open utterance,
/// however its count got there (pauses included): a speech frame taken in
/// while speaking ends the utterance exactly when it brings the count to
/// `max_utterance_frames` or beyond, and then the whole buffered utterance
/// with this frame is handed on and the chunker rests in silence.
pub proof fn lemma_limit_cuts_speech<S>(v: ChunkerView<S>, samples: Seq<S>)
    requires
        v.state == ChunkerState::Speaking,
        v.utterance_frame_count < u32::MAX,
    ensures
        v.emit_due(VadDecision::Speech) <==> v.utterance_frame_count + 1 >= v.max_utterance_frames,
        v.utterance_frame_count + 1 >= v.max_utterance_frames ==> {
            &&& v.step(samples, VadDecision::Speech).1 == seq![v.buffer + samples]
            &&& v.step(samples, VadDecision::Speech).0.state == ChunkerState::Silence
            &&& v.step(samples, VadDecision::Speech).0.buffer.len() == 0
            &&& v.step(samples, VadDecision::Speech).0.utterance_frame_count == 0
        },
        v.utterance_frame_count + 1 < v.max_utterance_frames ==> {
            &&& v.step(samples, VadDecision::Speech).1.len() == 0
            &&& v.step(samples, VadDecision::Speech).0.state == ChunkerState::Speaking
            &&& v.step(samples, VadDecision::Speech).0.buffer == v.buffer + samples
            &&& v.step(samples, VadDecision::Speech).0.utterance_frame_count == v.utterance_frame_count + 1
        },
{
}

/// Trailing silence ends an utterance on the silent frame that brings the
/// silence count to `trailing_silence_frames` or beyond, whatever came
/// before; the buffered utterance is handed on as it stands (the frame
/// itself is not kept) and the chunker rests in silence.
pub proof fn lemma_trailing_count_ends_utterance<S>(v: ChunkerView<S>, samples: Seq<S>)
    requires
        v.state == ChunkerState::TrailingSilence,
        v.silence_frame_count < u32::MAX,
        v.utterance_frame_count < u32::MAX,
    ensures
        v.emit_due(VadDecision::Silence) <==> v.silence_frame_count + 1 >= v.trailing_silence_frames,
        v.silence_frame_count + 1 >= v.trailing_silence_frames ==> {
            &&& v.step(samples, VadDecision::Silence).1 == seq![v.buffer]
            &&& v.step(samples, VadDecision::Silence).0.state == ChunkerState::Silence
            &&& v.step(samples, VadDecision::Silence).0.buffer.len() == 0
        },
        v.silence_frame_count + 1 < v.trailing_silence_frames ==> {
            &&& v.step(samples, VadDecision::Silence).1.len() == 0
            &&& v.step(samples, VadDecision::Silence).0.buffer == v.buffer
            &&& v.step(samples, VadDecision::Silence).0.silence_frame_count == v.silence_frame_count + 1
        },
{
}

/// Only the two limits end utterances: silence with no utterance open
/// changes nothing, speech with none open opens one holding just that
/// frame, and a change between speech and silence inside an utterance
/// keeps the frame and hands nothing on.
pub proof fn lemma_only_limits_end_utterances<S>(v: ChunkerView<S>, samples: Seq<S>, d: VadDecision)
    requires
        v.utterance_frame_count < u32::MAX,
        v.silence_frame_count < u32::MAX,
    ensures
        v.state == ChunkerState::Silence ==> v.step(samples, d).1.len() == 0,
        v.state == ChunkerState::Silence && d == VadDecision::Silence ==> v.step(samples, d).0 == v,
        v.inv() && v.state == ChunkerState::Silence && d == VadDecision::Speech ==> {
            &&& v.step(samples, d).0.state == ChunkerState::Speaking
            &&& v.step(samples, d).0.buffer == samples
            &&& v.step(samples, d).0.utterance_frame_count == 1
        },
        v.state == ChunkerState::TrailingSilence && d == VadDecision::Speech ==> {
            &&& v.step(samples, d).1.len() == 0
            &&& v.step(samples, d).0.state == ChunkerState::Speaking
            &&& v.step(samples, d).0.buffer == v.buffer + samples
        },
        v.state == ChunkerState::Speaking && d == VadDecision::Silence ==> {
            &&& v.step(samples, d).1.len() == 0
            &&& v.step(samples, d).0.state == ChunkerState::TrailingSilence
            &&& v.step(samples, d).0.buffer == v.buffer + samples
        },
{
}

} // verus!
