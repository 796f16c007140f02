use vstd::prelude::*;

use tokio::sync::mpsc::error::TrySendError;
use tokio::sync::mpsc::Sender;

use crate::capture::{extend_copied, AudioChunk};
use crate::error::ApipError;
use crate::vad::VadDecision;

verus! {

/// The sending half of a bounded tokio channel, carried opaquely.
#[verifier::external_type_specification]
#[verifier::external_body]
#[verifier::reject_recursive_types(T)]
pub struct ExSender<T>(Sender<T>);

/// Why a channel refused a message without waiting.
#[derive(Debug, Clone, Copy, PartialEq, Eq, Structural)]
pub enum SendFailure {
    /// The channel holds as many messages as it can.
    Full,
    /// The receiving half is gone.
    Closed,
}

impl SendFailure {
    /// The text with which the channel describes the refusal.
    pub open spec fn spec_text(self) -> Seq<char> {
        match self {
            SendFailure::Full => "no available capacity"@,
            SendFailure::Closed => "channel closed"@,
        }
    }

    /// The refusal as text, worded as tokio's `TrySendError` displays it.
    pub fn text(&self) -> (s: String)
        ensures
            s@ == self.spec_text(),
    {
        match self {
            SendFailure::Full => "no available capacity".to_owned(),
            SendFailure::Closed => "channel closed".to_owned(),
        }
    }
}

/// The sending half of a channel, with the record of the messages that the
/// channel accepted from it, in order.
#[verifier::reject_recursive_types(T)]
pub struct Outbox<T> {
    sender: Sender<T>,
    accepted: Ghost<Seq<T>>,
}

impl<T> Outbox<T> {
    /// The messages the channel accepted through this outbox, in order.
    pub closed spec fn accepted(&self) -> Seq<T> {
        self.accepted@
    }

    pub fn new(sender: Sender<T>) -> (o: Self)
        ensures
            o.accepted() == Seq::<T>::empty(),
    {
        Outbox { sender, accepted: Ghost(Seq::empty()) }
    }
}

/// `tokio::sync::mpsc::Sender::try_send`: hands `message` to the channel
/// without waiting. Whether the channel takes it depends on how full the
/// channel is and whether its receiver is alive, so which outcome comes is
/// not stated. What is stated is what tokio's source shows of each: on
/// `Ok` the channel has taken `message` (it is pushed onto the channel's
/// list), so it joins the record of accepted messages; on a refusal
/// nothing was sent, and the refusal is reported by which of the two kinds
/// it was.
#[verifier::external_body]
fn try_send<T>(outbox: &mut Outbox<T>, message: T) -> (r: Result<(), SendFailure>)
    ensures
        r is Ok ==> final(outbox).accepted() == old(outbox).accepted().push(message),
        r is Err ==> final(outbox).accepted() == old(outbox).accepted(),
{
    match outbox.sender.try_send(message) {
        Ok(()) => Ok(()),
        Err(TrySendError::Full(_)) => Err(SendFailure::Full),
        Err(TrySendError::Closed(_)) => Err(SendFailure::Closed),
    }
}

/// Where the chunker stands in the current utterance.
#[derive(Debug, Clone, Copy, PartialEq, Eq, Structural)]
pub enum ChunkerState {
    /// No utterance has begun.
    Silence,
    /// Speech is being collected.
    Speaking,
    /// Speech stopped; waiting to see whether it resumes.
    TrailingSilence,
}

/// The abstract state of a [`Chunker`].
pub struct ChunkerView<S> {
    pub state: ChunkerState,
    pub buffer: Seq<S>,
    pub silence_frame_count: u32,
    pub utterance_frame_count: u32,
    pub trailing_silence_frames: u32,
    pub max_utterance_frames: u32,
    pub sample_rate: u32,
}

impl<S> ChunkerView<S> {
    /// Outside an utterance nothing is buffered and nothing is counted.
    pub open spec fn inv(self) -> bool {
        self.state == ChunkerState::Silence ==> {
            &&& self.buffer.len() == 0
            &&& self.silence_frame_count == 0
            &&& self.utterance_frame_count == 0
        }
    }

    /// The state after one frame has been taken in, before any emission.
    pub open spec fn advance(self, samples: Seq<S>, decision: VadDecision) -> ChunkerView<S> {
        match (self.state, decision) {
            (ChunkerState::Silence, VadDecision::Speech) => ChunkerView {
                state: ChunkerState::Speaking,
                buffer: self.buffer + samples,
                utterance_frame_count: 1,
                ..self
            },
            (ChunkerState::Speaking, VadDecision::Speech) => ChunkerView {
                buffer: self.buffer + samples,
                utterance_frame_count: (self.utterance_frame_count + 1) as u32,
                ..self
            },
            (ChunkerState::Speaking, VadDecision::Silence) => ChunkerView {
                state: ChunkerState::TrailingSilence,
                buffer: self.buffer + samples,
                silence_frame_count: 1,
                utterance_frame_count: (self.utterance_frame_count + 1) as u32,
                ..self
            },
            (ChunkerState::TrailingSilence, VadDecision::Speech) => ChunkerView {
                state: ChunkerState::Speaking,
                buffer: self.buffer + samples,
                silence_frame_count: 0,
                utterance_frame_count: (self.utterance_frame_count + 1) as u32,
                ..self
            },
            (ChunkerState::TrailingSilence, VadDecision::Silence) => ChunkerView {
                silence_frame_count: (self.silence_frame_count + 1) as u32,
                utterance_frame_count: (self.utterance_frame_count + 1) as u32,
                ..self
            },
            (ChunkerState::Silence, VadDecision::Silence) => self,
        }
    }

    /// Whether taking in a frame with `decision` from this state ends the
    /// utterance: it reached its longest length, or enough trailing
    /// silence followed it.
    pub open spec fn emit_due(self, decision: VadDecision) -> bool {
        let next = self.advance(Seq::empty(), decision);
        match (self.state, decision) {
            (ChunkerState::Speaking, VadDecision::Speech) => next.utterance_frame_count
                >= self.max_utterance_frames,
            (ChunkerState::TrailingSilence, VadDecision::Silence) => next.silence_frame_count
                >= self.trailing_silence_frames,
            _ => false,
        }
    }

    /// The state once the buffered utterance has been taken out.
    pub open spec fn drained(self) -> ChunkerView<S> {
        ChunkerView { buffer: Seq::empty(), ..self }
    }

    /// The state once the utterance has been handed on: back to silence.
    pub open spec fn settled(self) -> ChunkerView<S> {
        ChunkerView {
            state: ChunkerState::Silence,
            buffer: Seq::empty(),
            silence_frame_count: 0,
            utterance_frame_count: 0,
            ..self
        }
    }
}

impl<S> ChunkerView<S> {
    /// The samples of a frame that the buffer keeps: all of them, except
    /// when the frame is silence while no utterance is open or while the
    /// utterance is already trailing off.
    pub open spec fn kept(self, samples: Seq<S>, decision: VadDecision) -> Seq<S> {
        match (self.state, decision) {
            (ChunkerState::Silence, VadDecision::Silence) => Seq::empty(),
            (ChunkerState::TrailingSilence, VadDecision::Silence) => Seq::empty(),
            _ => samples,
        }
    }

    /// One frame, when the channel takes every utterance: the next state and
    /// the utterances handed on (none or one).
    pub open spec fn step(self, samples: Seq<S>, decision: VadDecision) -> (ChunkerView<S>, Seq<Seq<S>>) {
        let next = self.advance(samples, decision);
        if self.emit_due(decision) {
            (next.settled(), seq![next.buffer])
        } else {
            (next, Seq::empty())
        }
    }
}

/// Cuts a stream of frames, each marked speech or silence, into utterances
/// and hands each utterance to a channel.
#[verifier::reject_recursive_types(S)]
pub struct Chunker<S> {
    outbox: Outbox<AudioChunk<S>>,
    buffer: Vec<S>,
    state: ChunkerState,
    silence_frame_count: u32,
    utterance_frame_count: u32,
    trailing_silence_frames: u32,
    max_utterance_frames: u32,
    sample_rate: u32,
}

impl<S> View for Chunker<S> {
    type V = ChunkerView<S>;

    closed spec fn view(&self) -> ChunkerView<S> {
        ChunkerView {
            state: self.state,
            buffer: self.buffer@,
            silence_frame_count: self.silence_frame_count,
            utterance_frame_count: self.utterance_frame_count,
            trailing_silence_frames: self.trailing_silence_frames,
            max_utterance_frames: self.max_utterance_frames,
            sample_rate: self.sample_rate,
        }
    }
}

impl<S> Chunker<S> {
    /// The utterances the channel accepted from this chunker, in order.
    pub closed spec fn sent(&self) -> Seq<AudioChunk<S>> {
        self.outbox.accepted()
    }

    /// The samples of each utterance the channel accepted, in order.
    pub open spec fn sent_samples(&self) -> Seq<Seq<S>> {
        self.sent().map_values(|c: AudioChunk<S>| c.samples@)
    }

    /// Every utterance the channel accepted carries the chunker's rate and
    /// is not marked as speech.
    pub open spec fn sent_tagged(&self) -> bool {
        forall|i: int|
            0 <= i < self.sent().len() ==> #[trigger] self.sent()[i].sample_rate == self@.sample_rate
                && !self.sent()[i].is_speech
    }
}

impl<S: Copy> Chunker<S> {
    /// A chunker that ends an utterance after `trailing_silence_ms` of
    /// silence or once it lasted `max_utterance_ms`, both counted in frames
    /// of `frame_duration_ms`.
    pub fn new(
        sender: Sender<AudioChunk<S>>,
        trailing_silence_ms: u32,
        max_utterance_ms: u32,
        sample_rate: u32,
        frame_duration_ms: u32,
    ) -> (c: Self)
        requires
            frame_duration_ms > 0,
        ensures
            c@ == (ChunkerView::<S> {
                state: ChunkerState::Silence,
                buffer: Seq::empty(),
                silence_frame_count: 0,
                utterance_frame_count: 0,
                trailing_silence_frames: (trailing_silence_ms / frame_duration_ms) as u32,
                max_utterance_frames: (max_utterance_ms / frame_duration_ms) as u32,
                sample_rate,
            }),
            c@.inv(),
            c.sent() == Seq::<AudioChunk<S>>::empty(),
            c.sent_tagged(),
    {
        Chunker {
            outbox: Outbox::new(sender),
            buffer: Vec::new(),
            state: ChunkerState::Silence,
            silence_frame_count: 0,
            utterance_frame_count: 0,
            trailing_silence_frames: trailing_silence_ms / frame_duration_ms,
            max_utterance_frames: max_utterance_ms / frame_duration_ms,
            sample_rate,
        }
    }

    /// Number of frames of silence since speech last stopped.
    pub fn silence_frame_count(&self) -> (n: u32)
        ensures
            n == self@.silence_frame_count,
    {
        self.silence_frame_count
    }

    /// Number of frames taken into the current utterance.
    pub fn utterance_frame_count(&self) -> (n: u32)
        ensures
            n == self@.utterance_frame_count,
    {
        self.utterance_frame_count
    }

    /// Takes in one frame and what voice-activity detection decided for it,
    /// and returns the utterance that this frame ends, if it ends one; the
    /// utterance is then out of the buffer, while the state and the counts
    /// wait for [`Chunker::push`] to learn whether it was handed on.
    pub fn take_frame(&mut self, chunk: &AudioChunk<S>, decision: VadDecision) -> (utterance:
        Option<AudioChunk<S>>)
        requires
            old(self)@.silence_frame_count < u32::MAX,
            old(self)@.utterance_frame_count < u32::MAX,
        ensures
            ({
                let next = old(self)@.advance(chunk.samples@, decision);
                if old(self)@.emit_due(decision) {
                    &&& final(self)@ == next.drained()
                    &&& utterance matches Some(u)
                    &&& u.samples@ == next.buffer
                    &&& u.sample_rate == next.sample_rate
                    &&& !u.is_speech
                } else {
                    final(self)@ == next && utterance is None
                }
            }),
            final(self).sent() == old(self).sent(),
    {
        let mut due = false;
        match (self.state, decision) {
            (ChunkerState::Silence, VadDecision::Speech) => {
                self.state = ChunkerState::Speaking;
                extend_copied(&mut self.buffer, chunk.samples.as_slice());
                self.utterance_frame_count = 1;
            },
            (ChunkerState::Speaking, VadDecision::Speech) => {
                extend_copied(&mut self.buffer, chunk.samples.as_slice());
                self.utterance_frame_count = self.utterance_frame_count + 1;
                due = self.utterance_frame_count >= self.max_utterance_frames;
            },
            (ChunkerState::Speaking, VadDecision::Silence) => {
                self.state = ChunkerState::TrailingSilence;
                extend_copied(&mut self.buffer, chunk.samples.as_slice());
                self.silence_frame_count = 1;
                self.utterance_frame_count = self.utterance_frame_count + 1;
            },
            (ChunkerState::TrailingSilence, VadDecision::Speech) => {
                self.state = ChunkerState::Speaking;
                extend_copied(&mut self.buffer, chunk.samples.as_slice());
                self.silence_frame_count = 0;
                self.utterance_frame_count = self.utterance_frame_count + 1;
            },
            (ChunkerState::TrailingSilence, VadDecision::Silence) => {
                self.silence_frame_count = self.silence_frame_count + 1;
                self.utterance_frame_count = self.utterance_frame_count + 1;
                due = self.silence_frame_count >= self.trailing_silence_frames;
            },
            (ChunkerState::Silence, VadDecision::Silence) => {},
        }
        if due {
            Some(self.take_utterance())
        } else {
            None
        }
    }

    /// Takes in one frame and what voice-activity detection decided for it.
    /// When that ends the utterance, the utterance is sent on the channel and
    /// the chunker returns to silence; if the channel refuses it, the
    /// utterance is dropped, the error is returned and the chunker stays
    /// where it was. A success is exactly one step of the run that the
    /// chunker's laws describe, with the utterance it ends, if any, accepted
    /// by the channel.
    pub fn push(&mut self, chunk: &AudioChunk<S>, decision: VadDecision) -> (r: Result<(), ApipError>)
        requires
            old(self)@.inv(),
            old(self)@.silence_frame_count < u32::MAX,
            old(self)@.utterance_frame_count < u32::MAX,
        ensures
            final(self)@.inv(),
            ({
                let next = old(self)@.advance(chunk.samples@, decision);
                if !old(self)@.emit_due(decision) {
                    r is Ok && final(self)@ == next
                } else {
                    match r {
                        Ok(()) => final(self)@ == next.settled(),
                        Err(e) => {
                            &&& final(self)@ == next.drained()
                            &&& e matches ApipError::Stream(m)
                            &&& (m@ == SendFailure::Full.spec_text() || m@
                                == SendFailure::Closed.spec_text())
                        },
                    }
                }
            }),
            ({
                let next = old(self)@.advance(chunk.samples@, decision);
                if old(self)@.emit_due(decision) && r is Ok {
                    &&& final(self).sent().drop_last() == old(self).sent()
                    &&& final(self).sent().len() == old(self).sent().len() + 1
                    &&& final(self).sent().last().samples@ == next.buffer
                    &&& final(self).sent().last().sample_rate == next.sample_rate
                    &&& !final(self).sent().last().is_speech
                } else {
                    final(self).sent() == old(self).sent()
                }
            }),
            r is Ok ==> final(self)@ == old(self)@.step(chunk.samples@, decision).0
                && final(self).sent_samples() == old(self).sent_samples() + old(self)@.step(
                chunk.samples@,
                decision,
            ).1,
            old(self).sent_tagged() ==> final(self).sent_tagged(),
    {
        let ghost before = self.sent();
        let r = match self.take_frame(chunk, decision) {
            None => Ok(()),
            Some(utterance) => self.hand_on(utterance),
        };
        proof {
            let f = |c: AudioChunk<S>| c.samples@;
            if self.sent() != before {
                assert(self.sent() =~= before.push(self.sent().last()));
                assert(self.sent().map_values(f) =~= before.map_values(f).push(self.sent().last().samples@));
            }
        }
        r
    }

    /// Takes the buffered samples out as an utterance at the chunker's rate.
    fn take_utterance(&mut self) -> (chunk: AudioChunk<S>)
        ensures
            chunk.samples@ == old(self)@.buffer,
            chunk.sample_rate == old(self)@.sample_rate,
            !chunk.is_speech,
            final(self)@ == old(self)@.drained(),
            final(self).sent() == old(self).sent(),
    {
        let mut samples: Vec<S> = Vec::new();
        std::mem::swap(&mut samples, &mut self.buffer);
        AudioChunk { samples, sample_rate: self.sample_rate, is_speech: false }
    }

    /// Sends `utterance` on the channel and settles on the channel's answer.
    fn hand_on(&mut self, utterance: AudioChunk<S>) -> (r: Result<(), ApipError>)
        requires
            old(self)@.buffer.len() == 0,
        ensures
            r is Ok ==> final(self).sent() == old(self).sent().push(utterance),
            r is Err ==> final(self).sent() == old(self).sent(),
            match r {
                Ok(()) => final(self)@ == old(self)@.settled(),
                Err(e) => {
                    &&& final(self)@ == old(self)@
                    &&& e matches ApipError::Stream(m)
                    &&& (m@ == SendFailure::Full.spec_text() || m@
                        == SendFailure::Closed.spec_text())
                },
            },
    {
        let sent = try_send(&mut self.outbox, utterance);
        self.settle(sent)
    }

    /// Takes the channel's answer to an utterance that was taken out of the
    /// buffer: when the channel took it, the chunker returns to silence and
    /// reports success; when the channel refused it, the chunker stays where
    /// it was and reports a stream error that names the refusal.
    pub fn settle(&mut self, sent: Result<(), SendFailure>) -> (r: Result<(), ApipError>)
        requires
            old(self)@.buffer.len() == 0,
        ensures
            match sent {
                Ok(()) => r is Ok && final(self)@ == old(self)@.settled(),
                Err(f) => {
                    &&& final(self)@ == old(self)@
                    &&& r matches Err(ApipError::Stream(m))
                    &&& m@ == f.spec_text()
                },
            },
            final(self).sent() == old(self).sent(),
    {
        match sent {
            Ok(()) => {},
            Err(failure) => {
                return Err(ApipError::Stream(failure.text()));
            },
        }
        self.state = ChunkerState::Silence;
        self.silence_frame_count = 0;
        self.utterance_frame_count = 0;
        assert(self.buffer@ =~= Seq::<S>::empty());
        Ok(())
    }
}

} // verus!
