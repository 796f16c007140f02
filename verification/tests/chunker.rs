use jafarvis::chunker::{Chunker, SendFailure};
use jafarvis::vad::VadDecision;
use jafarvis::{ApipError, AudioChunk};
use tokio::sync::mpsc::channel;

fn frame(value: f32, n: usize) -> AudioChunk<f32> {
    AudioChunk { samples: vec![value; n], sample_rate: 16_000, is_speech: false }
}

#[test]
fn silence_alone_emits_nothing() {
    let (tx, mut rx) = channel::<AudioChunk<f32>>(4);
    let mut chunker = Chunker::new(tx, 64, 320, 16_000, 32);
    for _ in 0..10 {
        chunker.push(&frame(0.0, 4), VadDecision::Silence).unwrap();
    }
    assert!(rx.try_recv().is_err());
    assert_eq!(chunker.utterance_frame_count(), 0);
    assert_eq!(chunker.silence_frame_count(), 0);
}

#[test]
fn trailing_silence_ends_utterance() {
    // 64 ms of trailing silence at 32 ms frames: two frames.
    let (tx, mut rx) = channel::<AudioChunk<f32>>(4);
    let mut chunker = Chunker::new(tx, 64, 3200, 16_000, 32);
    chunker.push(&frame(1.0, 2), VadDecision::Speech).unwrap();
    chunker.push(&frame(2.0, 2), VadDecision::Speech).unwrap();
    chunker.push(&frame(3.0, 2), VadDecision::Silence).unwrap();
    assert!(rx.try_recv().is_err());
    assert_eq!(chunker.silence_frame_count(), 1);
    // the second silent frame ends the utterance; it is not buffered
    chunker.push(&frame(4.0, 2), VadDecision::Silence).unwrap();
    let u = rx.try_recv().unwrap();
    assert_eq!(u.samples, vec![1.0, 1.0, 2.0, 2.0, 3.0, 3.0]);
    assert_eq!(u.sample_rate, 16_000);
    assert!(!u.is_speech);
    assert_eq!(chunker.utterance_frame_count(), 0);
    assert_eq!(chunker.silence_frame_count(), 0);
}

#[test]
fn trailing_silence_of_one_frame_still_takes_two() {
    let (tx, mut rx) = channel::<AudioChunk<f32>>(4);
    let mut chunker = Chunker::new(tx, 10, 3200, 8_000, 32);
    chunker.push(&frame(1.0, 1), VadDecision::Speech).unwrap();
    chunker.push(&frame(2.0, 1), VadDecision::Silence).unwrap();
    assert!(rx.try_recv().is_err());
    chunker.push(&frame(3.0, 1), VadDecision::Silence).unwrap();
    let u = rx.try_recv().unwrap();
    assert_eq!(u.samples, vec![1.0, 2.0]);
    assert_eq!(u.sample_rate, 8_000);
}

#[test]
fn speech_resumes_before_silence_ends() {
    let (tx, mut rx) = channel::<AudioChunk<f32>>(4);
    let mut chunker = Chunker::new(tx, 96, 3200, 16_000, 32);
    chunker.push(&frame(1.0, 1), VadDecision::Speech).unwrap();
    chunker.push(&frame(2.0, 1), VadDecision::Silence).unwrap();
    chunker.push(&frame(3.0, 1), VadDecision::Silence).unwrap();
    chunker.push(&frame(4.0, 1), VadDecision::Speech).unwrap();
    assert_eq!(chunker.silence_frame_count(), 0);
    assert_eq!(chunker.utterance_frame_count(), 4);
    for v in [5.0, 6.0, 7.0] {
        chunker.push(&frame(v, 1), VadDecision::Silence).unwrap();
    }
    let u = rx.try_recv().unwrap();
    // frames in trailing silence after the first are counted, not kept
    assert_eq!(u.samples, vec![1.0, 2.0, 4.0, 5.0]);
}

#[test]
fn long_speech_is_cut_at_limit() {
    // 96 ms limit at 32 ms frames: three frames.
    let (tx, mut rx) = channel::<AudioChunk<f32>>(4);
    let mut chunker = Chunker::new(tx, 640, 96, 16_000, 32);
    for v in [1.0, 2.0] {
        chunker.push(&frame(v, 1), VadDecision::Speech).unwrap();
    }
    assert!(rx.try_recv().is_err());
    chunker.push(&frame(3.0, 1), VadDecision::Speech).unwrap();
    assert_eq!(rx.try_recv().unwrap().samples, vec![1.0, 2.0, 3.0]);
    for v in [4.0, 5.0, 6.0, 7.0] {
        chunker.push(&frame(v, 1), VadDecision::Speech).unwrap();
    }
    assert_eq!(rx.try_recv().unwrap().samples, vec![4.0, 5.0, 6.0]);
    assert!(rx.try_recv().is_err());
    assert_eq!(chunker.utterance_frame_count(), 1);
}

#[test]
fn take_frame_returns_the_utterance() {
    let (tx, _rx) = channel::<AudioChunk<f32>>(1);
    let mut chunker = Chunker::new(tx, 640, 64, 22_050, 32);
    assert!(chunker.take_frame(&frame(1.0, 2), VadDecision::Speech).is_none());
    let u = chunker.take_frame(&frame(2.0, 1), VadDecision::Speech).unwrap();
    assert_eq!(u.samples, vec![1.0, 1.0, 2.0]);
    assert_eq!(u.sample_rate, 22_050);
    // the counts wait for the hand-on that push would do
    assert_eq!(chunker.utterance_frame_count(), 2);
}

#[test]
fn full_channel_reports_stream_error_and_keeps_state() {
    let (tx, mut rx) = channel::<AudioChunk<f32>>(1);
    let mut chunker = Chunker::new(tx, 640, 64, 16_000, 32);
    chunker.push(&frame(1.0, 1), VadDecision::Speech).unwrap();
    chunker.push(&frame(2.0, 1), VadDecision::Speech).unwrap();
    assert_eq!(rx.try_recv().unwrap().samples, vec![1.0, 2.0]);
    chunker.push(&frame(3.0, 1), VadDecision::Speech).unwrap();
    chunker.push(&frame(4.0, 1), VadDecision::Speech).unwrap();
    // the channel now holds one utterance and is full
    chunker.push(&frame(5.0, 1), VadDecision::Speech).unwrap();
    let r = chunker.push(&frame(6.0, 1), VadDecision::Speech);
    assert_eq!(r, Err(ApipError::Stream("no available capacity".to_string())));
    assert_eq!(chunker.utterance_frame_count(), 2);
    assert_eq!(rx.try_recv().unwrap().samples, vec![3.0, 4.0]);
    // the refused utterance is gone; collection goes on from there
    chunker.push(&frame(7.0, 1), VadDecision::Speech).unwrap();
    assert_eq!(rx.try_recv().unwrap().samples, vec![7.0]);
}

#[test]
fn closed_channel_reports_stream_error() {
    let (tx, rx) = channel::<AudioChunk<f32>>(1);
    drop(rx);
    let mut chunker = Chunker::new(tx, 640, 64, 16_000, 32);
    chunker.push(&frame(1.0, 1), VadDecision::Speech).unwrap();
    let r = chunker.push(&frame(2.0, 1), VadDecision::Speech);
    assert_eq!(r, Err(ApipError::Stream("channel closed".to_string())));
}

#[test]
fn send_failure_texts() {
    assert_eq!(SendFailure::Full.text(), "no available capacity");
    assert_eq!(SendFailure::Closed.text(), "channel closed");
}

#[test]
fn frame_counts_come_from_durations() {
    // 100 / 32 = 3 frames of trailing silence: the utterance ends on the
    // third silent frame.
    let (tx, mut rx) = channel::<AudioChunk<f32>>(4);
    let mut chunker = Chunker::new(tx, 100, 10_000, 16_000, 32);
    chunker.push(&frame(1.0, 1), VadDecision::Speech).unwrap();
    chunker.push(&frame(0.0, 1), VadDecision::Silence).unwrap();
    chunker.push(&frame(0.0, 1), VadDecision::Silence).unwrap();
    assert!(rx.try_recv().is_err());
    chunker.push(&frame(0.0, 1), VadDecision::Silence).unwrap();
    assert_eq!(rx.try_recv().unwrap().samples, vec![1.0, 0.0]);
}

#[test]
fn short_limit_still_takes_two_frames() {
    // 32 ms limit is one frame, but the first frame of an utterance is
    // never checked: utterances come out two frames long.
    let (tx, mut rx) = channel::<AudioChunk<f32>>(8);
    let mut chunker = Chunker::new(tx, 640, 32, 16_000, 32);
    for v in [1.0, 2.0, 3.0, 4.0, 5.0] {
        chunker.push(&frame(v, 1), VadDecision::Speech).unwrap();
    }
    assert_eq!(rx.try_recv().unwrap().samples, vec![1.0, 2.0]);
    assert_eq!(rx.try_recv().unwrap().samples, vec![3.0, 4.0]);
    assert!(rx.try_recv().is_err());
    assert_eq!(chunker.utterance_frame_count(), 1);
}

#[test]
fn settle_follows_the_channel_answer() {
    let (tx, _rx) = channel::<AudioChunk<f32>>(1);
    let mut chunker = Chunker::new(tx, 640, 64, 16_000, 32);
    chunker.push(&frame(1.0, 1), VadDecision::Speech).unwrap();
    let u = chunker.take_frame(&frame(2.0, 1), VadDecision::Speech).unwrap();
    assert_eq!(u.samples, vec![1.0, 2.0]);
    assert_eq!(
        chunker.settle(Err(SendFailure::Full)),
        Err(ApipError::Stream("no available capacity".to_string()))
    );
    assert_eq!(chunker.utterance_frame_count(), 2);
    assert_eq!(
        chunker.settle(Err(SendFailure::Closed)),
        Err(ApipError::Stream("channel closed".to_string()))
    );
    assert_eq!(chunker.settle(Ok(())), Ok(()));
    assert_eq!(chunker.utterance_frame_count(), 0);
    assert_eq!(chunker.silence_frame_count(), 0);
}

#[test]
fn utterance_after_leading_silence() {
    let (tx, mut rx) = channel::<AudioChunk<f32>>(4);
    let mut c = Chunker::new(tx, 64, 320, 16000, 32);
    c.push(&frame(1.0, 1), VadDecision::Silence).unwrap();
    c.push(&frame(2.0, 1), VadDecision::Speech).unwrap();
    c.push(&frame(3.0, 1), VadDecision::Silence).unwrap();
    assert!(rx.try_recv().is_err());
    c.push(&frame(4.0, 1), VadDecision::Silence).unwrap();
    let u = rx.try_recv().unwrap();
    assert_eq!(u.samples, vec![2.0, 3.0]);
    assert_eq!(u.sample_rate, 16000);
    assert!(!u.is_speech);
    assert!(rx.try_recv().is_err());
}
