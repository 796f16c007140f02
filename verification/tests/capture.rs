use jafarvis::capture::{chunk_size, ChunkCollector};
use jafarvis::vad::VadDecision;
use jafarvis::FRAME_DURATION_MS;

#[test]
fn frame_duration_is_32_ms() {
    assert_eq!(FRAME_DURATION_MS, 32);
}

#[test]
fn chunk_size_from_rate_and_duration() {
    assert_eq!(chunk_size(16_000, 32), 512);
    assert_eq!(chunk_size(48_000, 32), 1536);
    assert_eq!(chunk_size(44_100, 32), 1411);
    assert_eq!(chunk_size(8_000, 0), 0);
}

#[test]
fn collector_gathers_until_full() {
    let mut c: ChunkCollector<f32> = ChunkCollector::new(5);
    assert!(!c.is_complete());
    c.add_batch(vec![1.0, 2.0]);
    assert!(!c.is_complete());
    c.add_batch(vec![3.0, 4.0, 5.0, 6.0]);
    assert!(c.is_complete());
    let chunk = c.into_chunk(48_000);
    assert_eq!(chunk.samples, vec![1.0, 2.0, 3.0, 4.0, 5.0, 6.0]);
    assert_eq!(chunk.sample_rate, 48_000);
    assert!(!chunk.is_speech);
}

#[test]
fn empty_chunk_is_complete_at_once() {
    let c: ChunkCollector<i16> = ChunkCollector::new(0);
    assert!(c.is_complete());
}

#[test]
fn vad_decisions_compare() {
    assert_ne!(VadDecision::Speech, VadDecision::Silence);
    assert_eq!(VadDecision::Speech, VadDecision::Speech);
}
