use jafarvis::openwakeword::{EMBEDDING_WINDOW, MEL_SLIDE_SAMPLES, MEL_WINDOW_SAMPLES};
use jafarvis::trigger::TriggerSource;
use jafarvis::wuw::WakeWord;
use jafarvis::{AudioChunk, FRAME_SAMPLES, SAMPLE_RATE};

fn frame(value: f32) -> AudioChunk<f32> {
    AudioChunk { samples: vec![value; FRAME_SAMPLES], sample_rate: SAMPLE_RATE, is_speech: true }
}

fn small(values: &[f32]) -> AudioChunk<f32> {
    AudioChunk { samples: values.to_vec(), sample_rate: SAMPLE_RATE, is_speech: true }
}

#[test]
fn durations_become_frame_counts() {
    // 800 ms of pre-roll is 25 frames of 32 ms; 700 ms of wake word is 21.
    let w: WakeWord<f32, [f32; 2]> = WakeWord::new(800, 700);
    let t = w.push_to_talk();
    assert_eq!(t.wuw_frame_count, 21);
    assert_eq!(t.source, TriggerSource::PTT);
    assert!(t.preroll.samples.is_empty());
    assert_eq!(t.preroll.sample_rate, 16_000);
    assert!(t.preroll.is_speech);
    let w2: WakeWord<f32, u8> = WakeWord::new(31, 64);
    assert_eq!(w2.push_to_talk().wuw_frame_count, 2);
}

#[test]
fn preroll_keeps_latest_frames() {
    // 96 ms: three frames.
    let mut w: WakeWord<f32, u8> = WakeWord::new(96, 0);
    for v in [1.0, 2.0, 3.0, 4.0, 5.0] {
        w.push_frame(&small(&[v, v + 0.5]));
    }
    let t = w.push_to_talk();
    assert_eq!(t.preroll.samples, vec![3.0, 3.5, 4.0, 4.5, 5.0, 5.5]);
    assert_eq!(t.wuw_frame_count, 0);
}

#[test]
fn zero_preroll_keeps_nothing() {
    let mut w: WakeWord<f32, u8> = WakeWord::new(31, 0);
    for v in [1.0, 2.0, 3.0] {
        w.push_frame(&small(&[v]));
    }
    assert!(w.push_to_talk().preroll.samples.is_empty());
}

#[test]
fn window_ready_after_enough_samples() {
    let mut w: WakeWord<f32, u8> = WakeWord::new(800, 700);
    // 12160 samples need 24 frames of 512
    for i in 0..23 {
        assert!(!w.push_frame(&frame(i as f32)));
    }
    assert!(w.push_frame(&frame(23.0)));
    assert_eq!(w.accumulated(), 24 * 512);
    assert_eq!(w.slide_remainder(), 24 * 512);
    let window = w.mel_window();
    assert_eq!(window.len(), MEL_WINDOW_SAMPLES);
    assert_eq!(window[0], 0.0);
    assert_eq!(window[MEL_WINDOW_SAMPLES - 1], 23.0);
}

#[test]
fn embedding_window_fills() {
    // no audio, no debt: taking in embeddings moves nothing
    let mut w: WakeWord<f32, u32> = WakeWord::new(800, 700);
    for e in 0..(EMBEDDING_WINDOW as u32 - 1) {
        assert!(!w.push_embedding(e));
    }
    assert_eq!(w.accumulated(), 0);
    assert!(w.push_embedding(15));
    assert_eq!(w.embedding_window(), (0..16).collect::<Vec<u32>>());
    assert!(w.push_embedding(16));
    assert_eq!(w.embedding_window(), (1..17).collect::<Vec<u32>>());
}

#[test]
fn partial_embedding_window_slides_once() {
    let mut w: WakeWord<f32, u32> = WakeWord::new(800, 700);
    for i in 0..24 {
        w.push_frame(&frame(i as f32));
    }
    assert!(!w.push_embedding(0));
    assert_eq!(w.slide_remainder(), 24 * 512 - MEL_SLIDE_SAMPLES);
    assert_eq!(w.accumulated(), 24 * 512 - MEL_SLIDE_SAMPLES);
}

fn numbered(start: usize) -> AudioChunk<f32> {
    AudioChunk {
        samples: (start..start + FRAME_SAMPLES).map(|i| i as f32).collect(),
        sample_rate: SAMPLE_RATE,
        is_speech: true,
    }
}

#[test]
fn window_moves_one_slide_per_inference() {
    let mut w: WakeWord<f32, u8> = WakeWord::new(64, 32);
    for f in 0..24 {
        w.push_frame(&numbered(f * FRAME_SAMPLES));
    }
    assert_eq!(w.mel_window()[0], 0.0);
    assert!(w.finish_keyword(false).is_none());
    assert_eq!(w.slide_remainder(), 24 * 512 - MEL_SLIDE_SAMPLES);
    assert_eq!(w.accumulated(), 24 * 512 - MEL_SLIDE_SAMPLES);
    // the next window is ready once it lies one slide further on
    assert!(!w.push_frame(&numbered(24 * FRAME_SAMPLES)));
    assert!(!w.push_frame(&numbered(25 * FRAME_SAMPLES)));
    assert!(w.push_frame(&numbered(26 * FRAME_SAMPLES)));
    assert_eq!(w.mel_window()[0], MEL_SLIDE_SAMPLES as f32);
    assert_eq!(w.mel_window().len(), MEL_WINDOW_SAMPLES);
    let t = w.finish_keyword(true).unwrap();
    // the activation carries the last two frames
    assert_eq!(t.source, TriggerSource::WakeWord);
    assert_eq!(t.wuw_frame_count, 1);
    let expected: Vec<f32> = (25 * FRAME_SAMPLES..27 * FRAME_SAMPLES).map(|i| i as f32).collect();
    assert_eq!(t.preroll.samples, expected);
    assert!(!w.push_frame(&numbered(27 * FRAME_SAMPLES)));
    assert!(w.push_frame(&numbered(28 * FRAME_SAMPLES)));
    assert_eq!(w.mel_window()[0], (2 * MEL_SLIDE_SAMPLES) as f32);
}

#[test]
fn debt_counts_frames() {
    let mut w: WakeWord<f32, u8> = WakeWord::new(64, 32);
    for _ in 0..5 {
        w.push_frame(&small(&[1.0; 600]));
    }
    assert_eq!(w.slide_remainder(), 5 * 512);
    assert!(w.finish_keyword(false).is_none());
    assert_eq!(w.slide_remainder(), 5 * 512 - MEL_SLIDE_SAMPLES);
    assert_eq!(w.accumulated(), 3000 - MEL_SLIDE_SAMPLES);
}

#[test]
fn slide_stops_at_end_of_accumulator() {
    let mut w: WakeWord<f32, u8> = WakeWord::new(0, 0);
    for _ in 0..3 {
        w.push_frame(&small(&[1.0]));
    }
    // 1536 owed but only 3 samples held: all are slid past
    assert!(w.finish_keyword(false).is_none());
    assert_eq!(w.accumulated(), 0);
    assert_eq!(w.slide_remainder(), 1536 - MEL_SLIDE_SAMPLES);
    // below one slide of debt nothing moves
    w.push_frame(&small(&[2.0]));
    assert!(w.finish_keyword(false).is_none());
    assert_eq!(w.accumulated(), 1);
}
