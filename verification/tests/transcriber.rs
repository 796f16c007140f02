use jafarvis::transcriber::{append_segment, check_full_result, check_sample_rate, push_decimal};
use jafarvis::{AsrError, AudioChunk, SAMPLE_RATE};

#[test]
fn rejects_invalid_sample_rate() {
    let audio = AudioChunk {
        samples: vec![0.0f32; 512],
        sample_rate: 48000, // wrong rate
        is_speech: true,
    };

    let result = check_sample_rate(audio.sample_rate);
    assert!(matches!(result, Err(AsrError::InvalidSampleRate { .. })));
}

#[test]
fn invalid_sample_rate_names_both_rates() {
    assert_eq!(
        check_sample_rate(44_100),
        Err(AsrError::InvalidSampleRate { expected: 16_000, got: 44_100 })
    );
    assert_eq!(check_sample_rate(SAMPLE_RATE), Ok(()));
}

#[test]
fn full_result_codes() {
    assert_eq!(check_full_result(0), Ok(()));
    assert_eq!(
        check_full_result(-7),
        Err(AsrError::TranscriptionFailed("whisper_full returned -7".to_string()))
    );
    assert_eq!(
        check_full_result(42),
        Err(AsrError::TranscriptionFailed("whisper_full returned 42".to_string()))
    );
}

#[test]
fn decimal_rendering() {
    for n in [0, 7, 10, 305, -1, -90, i32::MAX, i32::MIN] {
        let mut s = "x".to_string();
        push_decimal(&mut s, n);
        assert_eq!(s, format!("x{}", n));
    }
}

#[test]
fn segments_join_in_order() {
    let mut text = String::new();
    append_segment(&mut text, 0, Some(Ok(" Hello".to_string()))).unwrap();
    append_segment(&mut text, 1, Some(Ok(" world.".to_string()))).unwrap();
    assert_eq!(text, " Hello world.");
}

#[test]
fn missing_segment_is_an_error() {
    let mut text = "kept".to_string();
    let r = append_segment(&mut text, 3, None);
    assert_eq!(r, Err(AsrError::SegmentExtraction("null pointer for segment 3".to_string())));
    assert_eq!(text, "kept");
}

#[test]
fn undecodable_segment_is_an_error() {
    let mut text = String::new();
    let r = append_segment(&mut text, 0, Some(Err("bad byte".to_string())));
    assert_eq!(r, Err(AsrError::SegmentExtraction("invalid UTF-8: bad byte".to_string())));
    assert_eq!(text, "");
}
