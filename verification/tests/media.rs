use std::collections::VecDeque;

use brivva::caption::sanitize_caption;
use brivva::drain::{
    audio_max_ready_ticks, cap_ready_audio_to_live, commit_tts_drain, drain_aged_host_audio,
    drain_next_h264_live, h264_annexb_contains_idr, max_lag_from_setting,
    requeue_host_audio_after_backpressure, take_tick_sample, TimedChunk, AUDIO_BYTES_PER_TICK,
    DEFAULT_AUDIO_MAX_READY_TICKS,
};
use brivva::mixer::{analyze_pcm_s16le, count_clipped_samples, limit_pcm_s16le, sample_abs_i16};

fn pcm(samples: &[i16]) -> Vec<u8> {
    samples.iter().flat_map(|s| s.to_le_bytes()).collect()
}

fn decode_samples(bytes: &[u8]) -> Vec<i16> {
    bytes.chunks_exact(2).map(|c| i16::from_le_bytes([c[0], c[1]])).collect()
}

fn buffer(chunks: &[(u64, Vec<u8>)]) -> VecDeque<TimedChunk> {
    chunks.iter().cloned().collect()
}

#[test]
fn sanitize_caption_strips_control_chars_and_truncates() {
    let text = format!("hi\x00there\n{}", "a".repeat(250));
    let out = sanitize_caption(&text);

    assert!(!out.contains('\x00'));
    assert!(out.contains('\n'));
    assert_eq!(out.chars().count(), 200);
}

#[test]
fn sanitize_caption_passes_through_empty_input() {
    assert_eq!(sanitize_caption(""), "");
}

#[test]
fn sanitize_caption_keeps_short_text_unchanged() {
    assert_eq!(sanitize_caption("안녕하세요"), "안녕하세요");
}

#[test]
fn sanitize_caption_escapes_percent_for_drawtext() {
    assert_eq!(sanitize_caption("7%"), "7\\%");
    assert_eq!(sanitize_caption("100% off"), "100\\% off");
}

#[test]
fn sanitize_caption_escapes_backslash_for_drawtext() {
    assert_eq!(sanitize_caption("path\\to"), "path\\\\to");
}

#[test]
fn sanitize_caption_strips_other_control_chars_but_keeps_newline() {
    let out = sanitize_caption("a\x07\tb\n");
    assert_eq!(out, "ab\n");
}

#[test]
fn sanitize_caption_truncates_before_escaping() {
    let text = "%".repeat(250);
    let out = sanitize_caption(&text);
    assert_eq!(out.chars().count(), 400);
}

#[test]
fn take_tick_sample_drains_full_buffer_and_pads_with_zeros() {
    let mut ready = vec![1u8; 100];
    let sample = take_tick_sample(&mut ready);

    assert_eq!(sample.len(), AUDIO_BYTES_PER_TICK);
    assert_eq!(&sample[..100], &vec![1u8; 100][..]);
    assert!(sample[100..].iter().all(|&b| b == 0));
    assert!(ready.is_empty());
}

#[test]
fn take_tick_sample_takes_exactly_one_tick_when_buffer_has_more() {
    let mut ready = vec![2u8; AUDIO_BYTES_PER_TICK + 500];
    let sample = take_tick_sample(&mut ready);

    assert_eq!(sample.len(), AUDIO_BYTES_PER_TICK);
    assert_eq!(sample, vec![2u8; AUDIO_BYTES_PER_TICK]);
    assert_eq!(ready.len(), 500);
}

#[test]
fn take_tick_sample_returns_zero_filled_tick_when_ready_is_empty() {
    let mut ready: Vec<u8> = Vec::new();
    let sample = take_tick_sample(&mut ready);
    assert_eq!(sample, vec![0u8; AUDIO_BYTES_PER_TICK]);
}

#[test]
fn h264_annexb_contains_idr_detects_three_and_four_byte_start_codes() {
    assert!(h264_annexb_contains_idr(&[0, 0, 1, 5, 1]));
    assert!(h264_annexb_contains_idr(&[9, 0, 0, 0, 1, 0x65, 1]));
    assert!(!h264_annexb_contains_idr(&[0, 0, 1, 1, 1]));
}

#[test]
fn cap_ready_audio_to_live_preserves_normal_browser_audio_chunk() {
    let mut ready = vec![1u8; 8192];
    let dropped = cap_ready_audio_to_live(&mut ready, DEFAULT_AUDIO_MAX_READY_TICKS);
    assert_eq!(dropped, 0);
    assert_eq!(ready, vec![1u8; 8192]);
}

#[test]
fn cap_ready_audio_to_live_drops_only_when_ready_exceeds_live_budget() {
    let max_ready_ticks = 13;
    let max_ready_bytes = AUDIO_BYTES_PER_TICK * max_ready_ticks;
    let mut ready = vec![1u8; AUDIO_BYTES_PER_TICK * 2];
    ready.extend(vec![2u8; max_ready_bytes]);
    let dropped = cap_ready_audio_to_live(&mut ready, max_ready_ticks);
    assert_eq!(dropped, AUDIO_BYTES_PER_TICK * 2);
    assert_eq!(ready, vec![2u8; max_ready_bytes]);
}

#[test]
fn drain_next_h264_live_returns_one_aged_chunk() {
    let now = 10_000u64;
    let mut buf = buffer(&[(now - 120, vec![1]), (now + 500, vec![2])]);
    let mut need_keyframe = false;
    let result = drain_next_h264_live(&mut buf, now, 100, 250, &mut need_keyframe).unwrap();
    assert_eq!(result.chunk, vec![1]);
    assert_eq!(result.dropped_stale, 0);
    assert_eq!(result.dropped_for_keyframe, 0);
    assert_eq!(buf.len(), 1);
}

#[test]
fn drain_next_h264_live_catches_up_within_lag_window() {
    let now = 10_000u64;
    let mut buf = buffer(&[(now - 1_000, vec![1]), (now - 150, vec![0, 0, 1, 5]), (now + 500, vec![4])]);
    let mut need_keyframe = false;
    let result = drain_next_h264_live(&mut buf, now, 100, 3_000, &mut need_keyframe).unwrap();
    assert_eq!(result.chunk, vec![1]);
    assert_eq!(result.dropped_stale, 0);
    assert_eq!(result.dropped_for_keyframe, 0);
    assert_eq!(buf.len(), 2);
}

#[test]
fn drain_next_h264_live_drops_stale_backlog_past_lag_window() {
    let now = 10_000u64;
    let mut buf = buffer(&[
        (now - 2_000, vec![1]),
        (now - 1_000, vec![2]),
        (now - 150, vec![0, 0, 1, 5]),
        (now + 500, vec![4]),
    ]);
    let mut need_keyframe = false;
    let result = drain_next_h264_live(&mut buf, now, 100, 250, &mut need_keyframe).unwrap();
    assert_eq!(result.chunk, vec![0, 0, 1, 5]);
    assert_eq!(result.dropped_stale, 2);
    assert_eq!(result.dropped_for_keyframe, 0);
    assert_eq!(buf.len(), 1);
}

#[test]
fn drain_next_h264_live_prefers_idr_after_stale_drop() {
    let now = 10_000u64;
    let p_slice = vec![0, 0, 1, 1, 0xaa];
    let idr = vec![0, 0, 0, 1, 5, 0xbb];
    let mut buf = buffer(&[
        (now - 2_000, vec![9]),
        (now - 150, p_slice),
        (now - 140, idr.clone()),
        (now + 500, vec![4]),
    ]);
    let mut need_keyframe = false;
    let result = drain_next_h264_live(&mut buf, now, 100, 250, &mut need_keyframe).unwrap();
    assert_eq!(result.chunk, idr);
    assert_eq!(result.dropped_stale, 1);
    assert_eq!(result.dropped_for_keyframe, 1);
}

#[test]
fn drain_next_h264_live_waits_for_keyframe_on_fresh_ffmpeg_pipe() {
    let now = 10_000u64;
    let mut buf = buffer(&[(now - 150, vec![0, 0, 1, 1, 0xaa]), (now - 140, vec![0, 0, 1, 5, 0xbb])]);
    let mut need_keyframe = true;
    let result = drain_next_h264_live(&mut buf, now, 100, 250, &mut need_keyframe).unwrap();
    assert_eq!(result.chunk, vec![0, 0, 1, 5, 0xbb]);
    assert_eq!(result.dropped_stale, 0);
    assert_eq!(result.dropped_for_keyframe, 1);
    assert!(!need_keyframe);
}

#[test]
fn drain_next_h264_live_returns_none_when_nothing_has_aged() {
    let now = 10_000u64;
    let mut buf = buffer(&[(now + 10, vec![1])]);
    let mut need_keyframe = false;
    let result = drain_next_h264_live(&mut buf, now, 100, 250, &mut need_keyframe);
    assert!(result.is_none());
    assert_eq!(buf.len(), 1);
}

#[test]
fn drain_next_h264_live_discards_a_lone_non_keyframe_while_waiting() {
    let now = 10_000u64;
    let mut buf = buffer(&[(now - 150, vec![0, 0, 1, 1, 0xaa])]);
    let mut need_keyframe = true;
    let result = drain_next_h264_live(&mut buf, now, 100, 250, &mut need_keyframe);
    assert!(result.is_none());
    assert!(buf.is_empty());
    assert!(need_keyframe);
}

#[test]
fn drain_aged_host_audio_extends_ready_buffer_only_with_aged_chunks() {
    let now = 10_000u64;
    let mut host_buf = buffer(&[(now - 150, vec![0xbb]), (now + 50, vec![0xcc])]);
    let mut ready = Vec::new();
    let dropped = drain_aged_host_audio(&mut host_buf, &mut ready, now, 100, 250);
    assert_eq!(dropped, 0);
    assert_eq!(ready, vec![0xbb]);
    assert_eq!(host_buf.len(), 1);
}

#[test]
fn drain_aged_host_audio_drops_stale_backlog() {
    let now = 10_000u64;
    let mut host_buf = buffer(&[
        (now - 2_000, vec![0xaa]),
        (now - 1_000, vec![0xbb]),
        (now - 150, vec![0xcc]),
        (now + 50, vec![0xdd]),
    ]);
    let mut ready = Vec::new();
    let dropped = drain_aged_host_audio(&mut host_buf, &mut ready, now, 100, 250);
    assert_eq!(dropped, 2);
    assert_eq!(ready, vec![0xcc]);
    assert_eq!(host_buf.len(), 1);
}

#[test]
fn requeue_after_backpressure_puts_host_audio_back_in_front() {
    let mut ready_host = vec![3u8; 10];
    let dropped = requeue_host_audio_after_backpressure(&mut ready_host, vec![1u8; 5], DEFAULT_AUDIO_MAX_READY_TICKS);
    assert_eq!(dropped, 0);
    assert_eq!(&ready_host[..5], &[1u8; 5]);
    assert_eq!(&ready_host[5..], &[3u8; 10]);

    let mut full = vec![2u8; AUDIO_BYTES_PER_TICK];
    let dropped = requeue_host_audio_after_backpressure(&mut full, vec![1u8; 4], 1);
    assert_eq!(dropped, 4);
    assert_eq!(full, vec![2u8; AUDIO_BYTES_PER_TICK]);
}

#[test]
fn commit_tts_drain_drops_only_written_bytes() {
    let mut q: VecDeque<u8> = VecDeque::from(vec![7u8; AUDIO_BYTES_PER_TICK * 2]);
    commit_tts_drain(&mut q, AUDIO_BYTES_PER_TICK);
    assert_eq!(q.len(), AUDIO_BYTES_PER_TICK);
    commit_tts_drain(&mut q, AUDIO_BYTES_PER_TICK * 5);
    assert!(q.is_empty());
}

#[test]
fn lag_settings_are_clamped_and_converted_to_ticks() {
    assert_eq!(max_lag_from_setting(None, 3_000, 5_000), 3_000);
    assert_eq!(max_lag_from_setting(Some(10), 3_000, 5_000), 250);
    assert_eq!(max_lag_from_setting(Some(9_000), 3_000, 5_000), 5_000);
    assert_eq!(audio_max_ready_ticks(3_000), 150);
    assert_eq!(audio_max_ready_ticks(5), 1);
}

#[test]
fn limit_pcm_s16le_caps_peaks_and_reports_stats() {
    let (limited, stats) = limit_pcm_s16le(&pcm(&[31_000, -31_000, 10_000]), 30_000);

    assert_eq!(decode_samples(&limited), vec![30_000, -30_000, 10_000]);
    assert_eq!(stats.samples, 3);
    assert_eq!(stats.limited_samples, 2);
    assert_eq!(stats.peak_before, 31_000);
    assert_eq!(stats.peak_after, 30_000);
}

#[test]
fn limit_pcm_s16le_preserves_speech_range_and_ignores_odd_byte() {
    let mut input = pcm(&[1_000, -2_000, 15_000]);
    input.push(0xFF);
    let (limited, stats) = limit_pcm_s16le(&input, 30_000);

    assert_eq!(decode_samples(&limited), vec![1_000, -2_000, 15_000]);
    assert_eq!(limited.len(), 6);
    assert_eq!(stats.limited_samples, 0);
    assert_eq!(stats.peak_before, 15_000);
    assert_eq!(stats.peak_after, 15_000);
}

#[test]
fn count_clipped_samples_counts_threshold_crossings() {
    assert_eq!(count_clipped_samples(&pcm(&[29_999, 30_000, -30_000]), 30_000), 2);
}

#[test]
fn analyze_pcm_s16le_counts_peak_and_ignores_trailing_odd_byte() {
    let mut input = pcm(&[0, 30_000, -32_000]);
    input.push(0xAA);
    let stats = analyze_pcm_s16le(&input, 30_000);

    assert_eq!(stats.samples, 3);
    assert_eq!(stats.clipped_samples, 2);
    assert_eq!(stats.peak_abs, 32_000);
}

#[test]
fn sample_abs_saturates_at_the_most_negative_sample() {
    assert_eq!(sample_abs_i16(i16::MIN), i16::MAX);
    assert_eq!(sample_abs_i16(-5), 5);
    let stats = analyze_pcm_s16le(&pcm(&[i16::MIN]), 30_000);
    assert_eq!(stats.peak_abs, i16::MAX);
}
