use brivva::drain::{drain_aged_host_audio, peek_tts_tick, take_tick_sample, AUDIO_BYTES_PER_TICK};
use brivva::rtmp::{enqueue_host_audio, HOST_AUDIO_CAP_BYTES};
use brivva::ffmpeg_log::{classify_progress_line, record_drop_frames, record_speed_tick, ProgressLine};
use std::collections::VecDeque;

#[test]
fn progress_lines_are_classified_by_key() {
    assert!(matches!(classify_progress_line("fps=29.97"), ProgressLine::Fps(v) if v == "29.97"));
    assert!(matches!(classify_progress_line("speed=0.98x"), ProgressLine::Speed(v) if v == "0.98x"));
    assert!(matches!(classify_progress_line("out_time_us=1500000"), ProgressLine::OutTimeUs(Some(1_500_000))));
    assert!(matches!(classify_progress_line("out_time_ms=42"), ProgressLine::OutTimeUs(Some(42))));
    assert!(matches!(classify_progress_line("out_time_us=N/A"), ProgressLine::OutTimeUs(None)));
    assert!(matches!(classify_progress_line("dup_frames=3"), ProgressLine::DupFrames(Some(3))));
    assert!(matches!(classify_progress_line("drop_frames=12"), ProgressLine::DropFrames(Some(12))));
    assert!(matches!(classify_progress_line("progress=continue"), ProgressLine::Progress));
    assert!(matches!(classify_progress_line("bitrate=1000kbits/s"), ProgressLine::Other));
    assert!(matches!(classify_progress_line("no separator"), ProgressLine::Other));
    assert!(matches!(classify_progress_line("fps=a=b"), ProgressLine::Fps(v) if v == "a=b"));
}

#[test]
fn slow_encode_alerts_from_the_fifth_slow_block_and_resets_on_a_fast_one() {
    let mut streak = 0u32;
    for _ in 0..4 {
        assert_eq!(record_speed_tick(&mut streak, true), None);
    }
    assert_eq!(record_speed_tick(&mut streak, true), Some(5));
    assert_eq!(record_speed_tick(&mut streak, true), Some(6));
    assert_eq!(record_speed_tick(&mut streak, false), None);
    assert_eq!(streak, 0);
}

#[test]
fn dropped_frames_alert_reports_only_growth() {
    let mut last = 0u64;
    assert_eq!(record_drop_frames(Some(0), &mut last), None);
    assert_eq!(record_drop_frames(Some(7), &mut last), Some((7, 7)));
    assert_eq!(last, 7);
    assert_eq!(record_drop_frames(Some(7), &mut last), None);
    assert_eq!(record_drop_frames(None, &mut last), None);
    assert_eq!(record_drop_frames(Some(10), &mut last), Some((10, 3)));
    assert_eq!(last, 10);
}

#[test]
fn tts_tick_peek_pads_short_queue_and_leaves_it_intact() {
    let q: VecDeque<u8> = VecDeque::from(vec![0x88, 0x13]);
    let (chunk, n) = peek_tts_tick(&q);
    assert_eq!(n, 2);
    assert_eq!(chunk.len(), AUDIO_BYTES_PER_TICK);
    assert_eq!(&chunk[..2], &[0x88, 0x13]);
    assert!(chunk[2..].iter().all(|b| *b == 0));
    assert_eq!(q.len(), 2);

    let long: VecDeque<u8> = VecDeque::from(vec![5u8; AUDIO_BYTES_PER_TICK * 2]);
    let (chunk, n) = peek_tts_tick(&long);
    assert_eq!(n, AUDIO_BYTES_PER_TICK);
    assert_eq!(chunk, vec![5u8; AUDIO_BYTES_PER_TICK]);
}

#[test]
fn delayed_host_audio_comes_out_unchanged_at_the_next_tick() {
    let mut host: VecDeque<(u64, Vec<u8>)> = VecDeque::new();
    assert_eq!(enqueue_host_audio(&mut host, (1_000, vec![1, 2, 3, 4]), HOST_AUDIO_CAP_BYTES), 0);
    let mut ready: Vec<u8> = Vec::new();

    assert_eq!(drain_aged_host_audio(&mut host, &mut ready, 3_999, 3_000, 3_000), 0);
    assert!(ready.is_empty(), "not due before its delay");

    assert_eq!(drain_aged_host_audio(&mut host, &mut ready, 4_000, 3_000, 3_000), 0);
    assert!(host.is_empty());
    let tick = take_tick_sample(&mut ready);
    assert_eq!(&tick[..4], &[1, 2, 3, 4]);
    assert!(tick[4..].iter().all(|b| *b == 0));
    assert!(ready.is_empty());
}
