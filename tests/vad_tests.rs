use assistant_core::vad::{
    buffer_capacity, frame_energy, simple_energy_vad, AudioChunk, AudioConfig, SegmentEvent,
    Segmenter, VoiceActivityDetector,
};

/// Full scale of a 16-bit sample.
const FULL: f64 = 32768.0;

fn pcm(x: f64) -> i16 {
    (x * FULL).round() as i16
}

#[test]
fn test_audio_chunk_mono_conversion() {
    let stereo: Vec<i16> = [0.1, 0.2, 0.3, 0.4, 0.5, 0.6].iter().map(|&x| pcm(x)).collect();
    let chunk = AudioChunk::new(stereo, 16000, 2, 0);
    let mono = chunk.to_mono();
    assert_eq!(mono.len(), 3);
    assert_eq!(mono[0], ((pcm(0.1) as i32 + pcm(0.2) as i32) / 2) as i16);
    assert_eq!(mono[1], ((pcm(0.3) as i32 + pcm(0.4) as i32) / 2) as i16);
    assert_eq!(mono[2], ((pcm(0.5) as i32 + pcm(0.6) as i32) / 2) as i16);
}

#[test]
fn test_audio_chunk_resampling() {
    let chunk = AudioChunk::new(vec![1, 2, 3, 4], 8000, 1, 0);
    let resampled = chunk.resample(4000);
    assert_eq!(resampled.len(), 2);
    assert_eq!(resampled[0], 1);
    assert_eq!(resampled[1], 3);
}

#[test]
fn upsampling_repeats_nearest_samples() {
    let chunk = AudioChunk::new(vec![10, 20], 8000, 1, 0);
    assert_eq!(chunk.resample(16000), vec![10, 10, 20, 20]);
    let stereo = AudioChunk::new(vec![-3, -4, 5, 7, 1], 8000, 2, 0);
    assert_eq!(stereo.to_mono(), vec![-3, 6]);
}

#[test]
fn audio_wake_test_energy_calculation() {
    let silent = vec![0i16; 1000];
    assert!((frame_energy(&silent) as f64) / FULL < 0.001);
    let loud = vec![pcm(0.5); 1000];
    assert!((frame_energy(&loud) as f64) / FULL > 0.4);
    let mixed: Vec<i16> = [0.1, -0.1, 0.2, -0.2, 0.1].iter().map(|&x| pcm(x)).collect();
    let energy = frame_energy(&mixed) as f64 / FULL;
    assert!(energy > 0.0 && energy < 0.3);
}

#[test]
fn recording_asr_test_energy_calculation() {
    let silent = vec![0i16; 1000];
    assert!((frame_energy(&silent) as f64) / FULL < 0.001);
    let loud = vec![pcm(0.5); 1000];
    assert!((frame_energy(&loud) as f64) / FULL > 0.4);
}

#[test]
fn energy_is_integer_rms() {
    assert_eq!(frame_energy(&[3, -4]), 3);
    assert_eq!(frame_energy(&[16384; 8]), 16384);
    assert_eq!(frame_energy(&[]), 0);
}

#[test]
fn vad_detects_loud() {
    let frame = vec![pcm(0.2); 480];
    assert!(simple_energy_vad(&frame, pcm(0.1) as u16));
}

#[test]
fn vad_ignores_quiet() {
    let frame = vec![pcm(0.01); 480];
    assert!(!simple_energy_vad(&frame, pcm(0.05) as u16));
}

#[test]
fn test_vad_energy_calculation() {
    let vad = VoiceActivityDetector::new();
    let high = vec![pcm(0.5); 480];
    assert!(vad.calculate_energy(&high) as f64 / FULL > 0.4);
    let low = vec![pcm(0.01); 480];
    assert!((vad.calculate_energy(&low) as f64 / FULL) < 0.1);
}

#[test]
fn test_vad_zcr_calculation() {
    let vad = VoiceActivityDetector::new();
    let alternating: Vec<i16> = (0..480).map(|i| if i % 2 == 0 { pcm(0.1) } else { pcm(-0.1) }).collect();
    assert!(vad.calculate_zcr(&alternating) as f64 / 1000.0 > 0.8);
    let constant = vec![pcm(0.1); 480];
    assert!((vad.calculate_zcr(&constant) as f64 / 1000.0) < 0.1);
}

#[test]
fn silence_is_inactive_and_half_scale_is_loud() {
    let vad = VoiceActivityDetector::new();
    assert!(!vad.detect_voice(&vec![0i16; 480]));
    let half = vec![pcm(0.5); 480];
    assert!(vad.calculate_energy(&half) > pcm(0.4) as u64);
}

#[test]
fn noisy_frame_is_active() {
    let vad = VoiceActivityDetector::new();
    let frame: Vec<i16> = (0..480).map(|i| if i % 2 == 0 { 8000 } else { -8000 }).collect();
    assert!(vad.detect_voice(&frame));
    // Too short a frame is never voice.
    assert!(!vad.detect_voice(&frame[..100]));
}

fn voiced() -> AudioChunk {
    AudioChunk::new((0..480).map(|i| if i % 2 == 0 { 8000 } else { -8000 }).collect(), 16000, 1, 0)
}

fn quiet() -> AudioChunk {
    AudioChunk::new(vec![0; 480], 16000, 1, 0)
}

#[test]
fn segmenter_emits_a_segment_after_silence() {
    let mut seg = Segmenter::new(VoiceActivityDetector::new(), 100);
    assert!(matches!(seg.push_chunk(quiet(), 0), SegmentEvent::Idle));
    assert!(matches!(seg.push_chunk(voiced(), 30), SegmentEvent::Started));
    assert!(matches!(seg.push_chunk(voiced(), 600), SegmentEvent::Buffering));
    assert!(matches!(seg.push_chunk(quiet(), 1000), SegmentEvent::Buffering));
    match seg.push_chunk(quiet(), 2200) {
        SegmentEvent::Complete(chunks) => assert_eq!(chunks.len(), 4),
        _ => panic!("expected a complete segment"),
    }
    assert!(matches!(seg.push_chunk(quiet(), 2300), SegmentEvent::Idle));
}

#[test]
fn segmenter_discards_short_noise() {
    let vad = VoiceActivityDetector::new().with_silence_duration(100);
    let mut seg = Segmenter::new(vad, 100);
    assert!(matches!(seg.push_chunk(voiced(), 0), SegmentEvent::Started));
    assert!(matches!(seg.push_chunk(quiet(), 200), SegmentEvent::Discarded));
}

#[test]
fn segmenter_buffer_is_bounded() {
    let mut seg = Segmenter::new(VoiceActivityDetector::new(), 2);
    seg.push_chunk(voiced(), 0);
    seg.push_chunk(voiced(), 100);
    seg.push_chunk(voiced(), 200);
    seg.push_chunk(voiced(), 300);
    match seg.push_chunk(quiet(), 5000) {
        SegmentEvent::Complete(chunks) => assert_eq!(chunks.len(), 2),
        _ => panic!("expected a complete segment"),
    }
}

#[test]
fn buffer_capacity_of_default_config() {
    let c = AudioConfig::default();
    assert_eq!(buffer_capacity(5000, c.sample_rate, c.buffer_size), 78);
}

#[test]
fn test_vad_voice_detection() {
    let vad = VoiceActivityDetector::new().with_energy_threshold(pcm(0.05) as u16);
    // A slow sine at 0.1 rad per sample crosses zero about 15 times in 480 samples: loud
    // enough, but its zero-crossing rate (about 0.03) is under the 0.3 threshold.
    let voice_frame: Vec<i16> = (0..480).map(|i| pcm(0.1 * (i as f64 * 0.1).sin())).collect();
    assert!(vad.calculate_energy(&voice_frame) > pcm(0.05) as u64);
    assert!((vad.calculate_zcr(&voice_frame) as f64 / 1000.0) < 0.3);
    assert!(!vad.detect_voice(&voice_frame));
    let silence_frame = vec![pcm(0.001); 480];
    assert!(!vad.detect_voice(&silence_frame));
}
