use cua_voice::audio::{
    audio_stats, duration_from_env, encode_wav_mono, finish_recording, i16_from_env,
    mix_interleaved_frame, normalize_quiet_samples_for_stt, push_interleaved,
    should_stop_recording, RecordingPolicy, RecordingState,
};
use cua_voice::seconds::nanos_of_parts;
use cua_voice::time::{as_millis, from_millis};
use std::time::Duration;

#[test]
fn encodes_wav_header_and_samples() {
    let wav = encode_wav_mono(16_000, &[0, 100, -100]).unwrap();
    assert!(wav.starts_with(b"RIFF"));
    assert!(wav.windows(4).any(|chunk| chunk == b"WAVE"));

    let mut expected = Vec::new();
    expected.extend_from_slice(b"RIFF");
    expected.extend_from_slice(&42u32.to_le_bytes());
    expected.extend_from_slice(b"WAVEfmt ");
    expected.extend_from_slice(&16u32.to_le_bytes());
    expected.extend_from_slice(&1u16.to_le_bytes());
    expected.extend_from_slice(&1u16.to_le_bytes());
    expected.extend_from_slice(&16_000u32.to_le_bytes());
    expected.extend_from_slice(&32_000u32.to_le_bytes());
    expected.extend_from_slice(&2u16.to_le_bytes());
    expected.extend_from_slice(&16u16.to_le_bytes());
    expected.extend_from_slice(b"data");
    expected.extend_from_slice(&6u32.to_le_bytes());
    for sample in [0i16, 100, -100] {
        expected.extend_from_slice(&sample.to_le_bytes());
    }
    assert_eq!(wav, expected);
}

#[test]
fn recorder_waits_for_speech_before_silence_stop() {
    let start = from_millis(10_000);
    let policy = RecordingPolicy {
        max_duration: from_millis(5 * 1_000),
        min_duration: from_millis(200),
        silence_duration: from_millis(300),
        speech_threshold: 100,
    };
    let mut state = RecordingState::new(start);

    assert!(!state.should_stop(start + from_millis(1 * 1_000), policy));
    state.observe_peak(start + from_millis(250), 120, policy.speech_threshold);
    assert!(!state.should_stop(start + from_millis(400), policy));
    assert!(state.should_stop(start + from_millis(560), policy));
}

#[test]
fn recorder_stops_at_max_duration_without_speech() {
    let start = from_millis(10_000);
    let policy = RecordingPolicy {
        max_duration: from_millis(2 * 1_000),
        min_duration: from_millis(200),
        silence_duration: from_millis(300),
        speech_threshold: 100,
    };
    let state = RecordingState::new(start);

    assert!(!state.should_stop(start + from_millis(1999), policy));
    assert!(state.should_stop(start + from_millis(2 * 1_000), policy));
}

#[test]
fn recorder_stops_immediately_when_requested() {
    let start = from_millis(10_000);
    let policy = RecordingPolicy {
        max_duration: from_millis(5 * 1_000),
        min_duration: from_millis(200),
        silence_duration: from_millis(300),
        speech_threshold: 100,
    };
    let state = RecordingState::new(start);
    let stop_requested = true;

    assert!(should_stop_recording(&state, start + from_millis(20), policy, stop_requested));
    assert!(!should_stop_recording(&state, start + from_millis(20), policy, false));
}

#[test]
fn recording_policy_defaults_are_latency_oriented() {
    let policy = RecordingPolicy::from_max_duration(from_millis(5 * 1_000), &None, &None, &None);

    assert_eq!(policy.min_duration, from_millis(350));
    assert_eq!(policy.silence_duration, from_millis(420));
    assert_eq!(policy.speech_threshold, 48);
}

#[test]
fn recording_policy_env_bounds_ignore_invalid_values() {
    let set = |value: &str| Some(value.to_string());
    assert_eq!(duration_from_env(&set("5"), 250, 100, 1_000), from_millis(250));
    assert_eq!(duration_from_env(&set("900"), 250, 100, 1_000), from_millis(900));

    assert_eq!(i16_from_env(&set("4"), 48, 8, 6_000), 48);
    assert_eq!(i16_from_env(&set("850"), 48, 8, 6_000), 850);

    assert_eq!(duration_from_env(&set("nope"), 250, 100, 1_000), from_millis(250));
    assert_eq!(duration_from_env(&set(" 900"), 250, 100, 1_000), from_millis(250));
    assert_eq!(i16_from_env(&set("-7"), 48, -10, 10), -7);
    assert_eq!(i16_from_env(&set("-"), 48, -10, 10), 48);
    assert_eq!(i16_from_env(&set("-+7"), 48, -10, 10), 48);
    assert_eq!(i16_from_env(&set("+7"), 48, -10, 10), 7);
    assert_eq!(i16_from_env(&set("-32768"), 48, i16::MIN, 10), i16::MIN);
    assert_eq!(i16_from_env(&set("32768"), 48, i16::MIN, i16::MAX), 48);
}

#[test]
fn audio_stats_reports_duration_peak_and_rms() {
    let stats = audio_stats(1_000, &[0, 1_000, -2_000, 0]);

    assert_eq!(stats.duration, from_millis(4));
    assert_eq!(stats.peak_amplitude, 2_000);
    let rms = (stats.sum_squares as f64 / 4.0).sqrt() / f64::from(i16::MAX);
    assert!(rms > 0.03);
    assert_eq!(stats.sum_squares, 5_000_000);
    assert_eq!(audio_stats(0, &[1]).duration, 0);
    assert_eq!(audio_stats(8_000, &[i16::MIN]).peak_amplitude, 32_767);
    for (rate, count) in [(3, 1), (3, 2), (44_100, 441), (44_100, 10_000), (1_024, 1), (1_024, 3)] {
        let samples = vec![0i16; count];
        let expected = Duration::from_secs_f64(count as f64 / f64::from(rate));
        assert_eq!(audio_stats(rate, &samples).duration, expected.as_nanos());
    }
    assert_eq!(audio_stats(1_024, &[0]).duration, 976_562);
    assert_eq!(audio_stats(2_000_000_000, &[0]).duration, 1);
    assert_eq!(audio_stats(u32::MAX, &[0]).duration, 0);
}

#[test]
fn parts_of_a_second_last_as_long_as_a_double_counts() {
    let long: [usize; 10] = [
        1,
        3,
        9_007_199_254_740_991,
        9_007_199_254_740_992,
        9_007_199_254_740_993,
        9_007_199_254_740_995,
        18_014_398_509_481_983,
        4_611_686_018_427_387_903,
        4_611_686_018_427_387_904,
        9_223_372_036_854_775_807,
    ];
    for count in long {
        for rate in [1u32, 2, 3, 7, 1_000, 44_100, 2_000_000_000, u32::MAX] {
            let expected = Duration::from_secs_f64(count as f64 / f64::from(rate));
            assert_eq!(nanos_of_parts(count, rate), expected.as_nanos());
        }
    }
    let mut seed: u64 = 1;
    for step in 0..20_000u32 {
        seed = seed.wrapping_mul(6_364_136_223_846_793_005).wrapping_add(1_442_695_040_888_963_407);
        let count = (seed >> (1 + step % 60)) as usize;
        seed = seed.wrapping_mul(6_364_136_223_846_793_005).wrapping_add(1_442_695_040_888_963_407);
        let rate = ((seed >> 32) as u32 >> (step % 31)).max(1);
        let expected = Duration::from_secs_f64(count as f64 / f64::from(rate));
        assert_eq!(nanos_of_parts(count, rate), expected.as_nanos(), "{count} at {rate}");
    }
    assert_eq!(nanos_of_parts(0, 7), 0);
}

#[test]
fn whole_seconds_of_parts_are_exact() {
    for rate in [1u32, 3, 44_100, 48_000, u32::MAX] {
        for seconds in [0usize, 1, 59, 2_097_151] {
            assert_eq!(
                nanos_of_parts(seconds * rate as usize, rate),
                seconds as u128 * 1_000_000_000
            );
        }
    }
}

#[test]
fn the_first_of_equally_loud_channels_is_taken() {
    assert_eq!(mix_interleaved_frame(&[3, -9, 9]), Some((-9, 9)));
    assert_eq!(mix_interleaved_frame(&[3, 9, -9]), Some((9, 9)));
    assert_eq!(mix_interleaved_frame(&[i16::MIN, i16::MAX]), Some((i16::MIN, i16::MAX)));
    assert_eq!(mix_interleaved_frame(&[0, 0]), Some((0, 0)));
}

#[test]
fn interleaved_input_uses_loudest_channel_for_mono_capture() {
    let frame = [0i16, 1_000i16];

    assert_eq!(mix_interleaved_frame(&frame), Some((1_000, 1_000)));
}

#[test]
fn interleaved_input_does_not_cancel_inverted_channels() {
    let frame = [1_000i16, -1_000i16];

    assert_eq!(mix_interleaved_frame(&frame), Some((1_000, 1_000)));
    assert_eq!(mix_interleaved_frame(&[]), None);
    assert_eq!(mix_interleaved_frame(&[0, 0]), Some((0, 0)));
    assert_eq!(mix_interleaved_frame(&[5, i16::MIN]), Some((i16::MIN, i16::MAX)));
}

#[test]
fn interleaved_peak_detects_speech_outside_first_channel() {
    let policy = RecordingPolicy {
        max_duration: from_millis(1 * 1_000),
        min_duration: from_millis(100),
        silence_duration: from_millis(120),
        speech_threshold: 500,
    };
    let mut samples = Vec::<i16>::new();
    let mut state = RecordingState::new(0);

    push_interleaved(&[0i16, 800i16, 0, 900], 2, &mut samples, &mut state, policy, 7);

    assert_eq!(samples, vec![800, 900]);
    assert!(state.heard_voice);
    assert_eq!(state.last_voice_at, Some(7));

    push_interleaved(&[1, 2, 3], 2, &mut samples, &mut state, policy, 9);
    assert_eq!(samples, vec![800, 900, 2, 3]);
    assert_eq!(state.last_voice_at, Some(7));
    push_interleaved(&[4, 5], 0, &mut samples, &mut state, policy, 9);
    assert_eq!(samples, vec![800, 900, 2, 3, 4, 5]);
}

#[test]
fn quiet_samples_are_boosted_for_stt_without_changing_timing_stats() {
    let samples = [0i16, 50, -100, 25];

    let normalized = normalize_quiet_samples_for_stt(&samples, 100);

    assert_eq!(normalized, vec![0, 1_600, -3_200, 800]);
    assert_eq!(normalize_quiet_samples_for_stt(&samples, 3_200), samples);
    assert_eq!(normalize_quiet_samples_for_stt(&samples, 0), samples);
    assert_eq!(
        normalize_quiet_samples_for_stt(&[30_000, -30_000], 1_000),
        vec![i16::MAX, i16::MIN]
    );
}

#[test]
fn a_recording_is_written_louder_and_measured_as_it_was() {
    let audio = finish_recording(1_000, &[0, 50, -100, 25]).unwrap();
    assert_eq!(audio.stats.peak_amplitude, 100);
    assert_eq!(audio.stats.duration, from_millis(4));
    assert_eq!(
        audio.wav_bytes,
        encode_wav_mono(1_000, &[0, 1_600, -3_200, 800]).unwrap()
    );
    for rate in [1_000, 0, u32::MAX] {
        assert_eq!(
            finish_recording(rate, &[]).unwrap_err(),
            "no samples captured from input device"
        );
    }
}

#[test]
fn milliseconds_come_back_and_parts_of_one_are_dropped() {
    assert_eq!(as_millis(from_millis(649)), 649);
    assert_eq!(as_millis(from_millis(650) - 1), 649);
    assert_eq!(as_millis(from_millis(u64::MAX)), u64::MAX);
    assert_eq!(as_millis(u128::MAX), u64::MAX);
}
