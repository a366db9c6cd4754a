use jarvis::recognizer::{is_noise, pad_for_recognition};
use jarvis::resample::resample_audio;
use jarvis::vad::{SegmenterConfig, VadChunker};

fn frame(value: i16, size: usize) -> Vec<i16> {
    vec![value; size]
}

fn small_config() -> SegmenterConfig {
    SegmenterConfig {
        frame_size: 4,
        energy_threshold: 100,
        silence_limit: 3,
        max_buffer_samples: 1000,
    }
}

#[test]
fn resample_length_is_ceiling_of_input_over_factor() {
    let input: Vec<i16> = (0..10).map(|i| i as i16).collect();
    assert_eq!(resample_audio(&input, 48000, 16000).len(), 4);
    assert_eq!(resample_audio(&input[..9], 48000, 16000).len(), 3);
    assert_eq!(resample_audio(&input, 16000, 16000).len(), 10);
    assert_eq!(resample_audio(&input, 32000, 16000).len(), 5);
}

#[test]
fn resample_constant_input_stays_constant() {
    let input = vec![1234i16; 300];
    let out = resample_audio(&input, 48000, 16000);
    assert_eq!(out.len(), 100);
    assert!(out.iter().all(|&s| s == 1234));
}

#[test]
fn resample_filters_then_decimates() {
    let input = vec![0i16, 1000, 1000, 1000, 1000, -1000, -1000];
    assert_eq!(resample_audio(&input, 48000, 16000), vec![0, 883, -536]);
}

#[test]
fn resample_empty_input() {
    assert!(resample_audio(&[], 48000, 16000).is_empty());
}

#[test]
fn segmenter_end_to_end_scenario() {
    let config = SegmenterConfig::default_config();
    assert_eq!(config.frame_size, 320);
    let mut chunker = VadChunker::new(config);
    let mut stream = Vec::new();
    for _ in 0..5 {
        stream.extend(frame(259, 320));
    }
    for _ in 0..60 {
        stream.extend(frame(0, 320));
    }
    let out = chunker.push(&stream);
    assert_eq!(out.len(), 1);
    assert_eq!(out[0].len(), 1600);
    assert!(out[0].iter().all(|&s| s == 259));
}

#[test]
fn segmenter_speech_then_silence_in_pieces() {
    let mut chunker = VadChunker::new(small_config());
    let mut emitted = Vec::new();
    for _ in 0..2 {
        emitted.extend(chunker.push(&frame(10, 4)));
    }
    // silent frames below the limit keep the utterance open
    emitted.extend(chunker.push(&frame(0, 8)));
    assert!(emitted.is_empty());
    emitted.extend(chunker.push(&frame(0, 4)));
    assert_eq!(emitted, vec![frame(10, 8)]);
    // further silence emits nothing
    assert!(chunker.push(&frame(0, 40)).is_empty());
}

#[test]
fn segmenter_pause_shorter_than_limit_keeps_one_utterance() {
    let mut chunker = VadChunker::new(small_config());
    let mut stream = frame(10, 4);
    stream.extend(frame(0, 8));
    stream.extend(frame(-10, 4));
    stream.extend(frame(0, 12));
    let out = chunker.push(&stream);
    let mut expected = frame(10, 4);
    expected.extend(frame(-10, 4));
    assert_eq!(out, vec![expected]);
}

#[test]
fn segmenter_silence_only_emits_nothing() {
    let mut chunker = VadChunker::new(SegmenterConfig::default_config());
    assert!(chunker.push(&vec![3i16; 320 * 200]).is_empty());
}

#[test]
fn segmenter_emits_at_max_buffer_without_silence() {
    let config = SegmenterConfig {
        frame_size: 4,
        energy_threshold: 100,
        silence_limit: 3,
        max_buffer_samples: 12,
    };
    let mut chunker = VadChunker::new(config);
    let out = chunker.push(&frame(20, 20));
    assert_eq!(out, vec![frame(20, 12)]);
    let out = chunker.push(&frame(20, 4));
    assert_eq!(out, vec![frame(20, 12)]);
}

#[test]
fn segmenter_carries_partial_frames() {
    let mut chunker = VadChunker::new(small_config());
    assert!(chunker.push(&[10, 10, 10]).is_empty());
    assert!(chunker.push(&[10, 0, 0, 0, 0, 0]).is_empty());
    assert!(chunker.push(&[0, 0, 0, 0, 0]).is_empty());
    let out = chunker.push(&[0, 0]);
    assert_eq!(out, vec![vec![10i16, 10, 10, 10]]);
}

#[test]
fn frame_energy_at_threshold_is_silence() {
    // energy 4 * 5 * 5 = 100, not above the threshold
    let mut chunker = VadChunker::new(small_config());
    assert!(chunker.push(&frame(5, 40)).is_empty());
    let mut chunker = VadChunker::new(small_config());
    let mut stream = frame(6, 4);
    stream.extend(frame(0, 12));
    assert_eq!(chunker.push(&stream).len(), 1);
}

#[test]
fn noise_markers_are_recognized() {
    assert!(is_noise("[BLANK_AUDIO]"));
    assert!(is_noise("(wind blowing)"));
    assert!(!is_noise("turn on the light"));
    assert!(!is_noise("[partial"));
    assert!(!is_noise("(mixed]"));
    assert!(!is_noise(""));
}

#[test]
fn short_audio_is_padded_by_one_second() {
    let padded = pad_for_recognition(&[1, 2, 3]);
    assert_eq!(padded.len(), 16003);
    assert_eq!(&padded[..3], &[1, 2, 3]);
    assert!(padded[3..].iter().all(|&s| s == 0));
    let long = vec![7i16; 16000];
    assert_eq!(pad_for_recognition(&long), long);
}
