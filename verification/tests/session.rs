use std::collections::VecDeque;

use brivva::drain::{AUDIO_BYTES_PER_TICK, DEFAULT_AUDIO_MAX_READY_TICKS};
use brivva::drain_loop::{AudioDrainState, FifoWrite, VideoDrainState};
use brivva::ffmpeg_args::{VideoEncoderKind, VideoProfileCaps};
use brivva::frames::{CropRegion, FaceCropper, Stats};
use brivva::lang::Lang;
use brivva::rtmp::{
    align_pcm_s16le_len, audio_fifo_path, crash_decision, crash_detail, effective_video_profile_caps,
    enqueue_host_audio, enqueue_tts_segment, enqueue_video_chunk, now_unix_ms, should_kill_idle,
    stream_plays_tts, subtitle_textfile_path, truncate_pcm_s16le, tts_backlog_ms_of, tts_queue_bytes,
    tts_queue_cap_bytes, CrashDecision, RtmpDestination, StreamBuffers, TtsSegment, FFMPEG_RESTART_DELAY_MS,
    HOST_AUDIO_CAP_BYTES, HOST_VIDEO_H264_CAP_CHUNKS, IDLE_RESTART_THRESHOLD_MS, MAX_FFMPEG_RESTARTS,
    TTS_QUEUE_CAP_BYTES,
};
use brivva::self_check::{build_report, has_line_token, has_token};
use brivva::session::{
    destination_url, maybe_downgrade_rtmps, pipeline_config_from, resolve_stream_role, BroadcastState,
    PASS_LANG_CODE,
};
use brivva::session_log::{is_secret_key, LogLevel, SessionLogEmitter};
use brivva::smoke::{parse_smoke_args, usage};
use brivva::text::{parse_u32, parse_u64};
use brivva::translate_cli::{parse_language, Language, TranslationRequest};

#[test]
fn should_parse_en() {
    assert_eq!(Lang::from_str("en"), Some(Lang::En));
}

#[test]
fn should_parse_ja() {
    assert_eq!(Lang::from_str("ja"), Some(Lang::Ja));
}

#[test]
fn should_parse_zh() {
    assert_eq!(Lang::from_str("zh"), Some(Lang::Zh));
}

#[test]
fn should_parse_ko() {
    assert_eq!(Lang::from_str("ko"), Some(Lang::Ko));
}

#[test]
fn should_parse_ru() {
    assert_eq!(Lang::from_str("ru"), Some(Lang::Ru));
}

#[test]
fn should_return_none_for_unknown_code() {
    assert_eq!(Lang::from_str("fr"), None);
}

#[test]
fn should_display_roundtrip() {
    for (code, lang) in [("en", Lang::En), ("ja", Lang::Ja), ("zh", Lang::Zh), ("ko", Lang::Ko), ("ru", Lang::Ru)] {
        assert_eq!(lang.to_string(), code);
        assert_eq!(Lang::from_str(&lang.to_string()), Some(lang));
    }
}

#[test]
fn report_passes_for_required_nvenc_capabilities() {
    let report = build_report(
        VideoEncoderKind::Nvenc,
        "ffmpeg version n6.1\nconfiguration: --enable-openssl --enable-libfreetype",
        "Input:\n  rtmp\n  rtmps",
        "Filters:\n T.C drawtext V->V Draw text",
        "Encoders:\n V..... h264_nvenc NVIDIA NVENC H.264 encoder",
        "NotoSansCJK-Regular.ttc: \"Noto Sans CJK KR\" \"Regular\"",
    );

    assert!(report.ok);
    assert!(report.required_nvenc);
}

#[test]
fn report_fails_when_nvenc_requested_but_missing() {
    let report = build_report(
        VideoEncoderKind::Nvenc,
        "configuration: --enable-openssl",
        "rtmp\nrtmps",
        "drawtext",
        "libx264",
        "NotoSansCJK-Regular.ttc: \"Noto Sans CJK KR\" \"Regular\"",
    );

    assert!(!report.ok);
    assert!(!report.encoders_has_h264_nvenc);
}

#[test]
fn x264_path_does_not_require_nvenc() {
    let report = build_report(
        VideoEncoderKind::X264,
        "configuration: --enable-openssl",
        "rtmp\nrtmps",
        "drawtext",
        "libx264",
        "NotoSansCJK-Regular.ttc: \"Noto Sans CJK KR\" \"Regular\"",
    );

    assert!(report.ok);
    assert!(!report.required_nvenc);
}

#[test]
fn report_keeps_first_lines_and_detects_missing_pieces() {
    let report = build_report(
        VideoEncoderKind::X264,
        "  ffmpeg version 7.0 \r\nsecond line",
        "rtmp",
        "scale",
        "",
        "DejaVuSans.ttf: \"DejaVu Sans\"\nmore",
    );
    assert_eq!(report.ffmpeg_version_first_line, "ffmpeg version 7.0");
    assert_eq!(report.font_match, "DejaVuSans.ttf: \"DejaVu Sans\"");
    assert!(!report.ffmpeg_config_has_openssl);
    assert!(report.protocols_has_rtmp);
    assert!(!report.protocols_has_rtmps);
    assert!(!report.filters_has_drawtext);
    assert!(!report.font_resolves_cjk);
    assert!(!report.ok);
}

#[test]
fn tokens_match_by_case_or_suffix() {
    assert!(has_token("--enable-OpenSSL", "openssl"));
    assert!(has_line_token("x RTMP y", "rtmp"));
    assert!(has_line_token("librtmp", "rtmp"));
    assert!(!has_line_token("rtmpx", "rtmp"));
}

#[test]
fn timing_constants_match_documented_values() {
    assert_eq!(MAX_FFMPEG_RESTARTS, 3);
    assert_eq!(std::time::Duration::from_millis(FFMPEG_RESTART_DELAY_MS), std::time::Duration::from_secs(2));
    assert_eq!(std::time::Duration::from_millis(IDLE_RESTART_THRESHOLD_MS), std::time::Duration::from_secs(25));
    assert_eq!(HOST_AUDIO_CAP_BYTES, 20 * 88_200);
    assert_eq!(HOST_VIDEO_H264_CAP_CHUNKS, 120_000);
    assert_eq!(TTS_QUEUE_CAP_BYTES, 60 * 88_200);
}

#[test]
fn now_unix_ms_returns_positive_millis_since_epoch() {
    let t = now_unix_ms();
    assert!(t > 1_700_000_000_000, "expected modern-era millis, got {t}");
}

#[test]
fn stream_buffers_new_starts_empty() {
    let b = StreamBuffers::new();
    assert_eq!(b.audio.len(), 0);
    assert_eq!(b.video_h264.len(), 0);
    assert_eq!(b.tts.len(), 0);
}

fn segment(lang: &str, bytes: usize) -> TtsSegment {
    TtsSegment::new(0, 0, lang.to_string(), String::new(), vec![0u8; bytes])
}

#[test]
fn tts_queue_sheds_whole_oldest_segments_over_the_cap() {
    let mut q = VecDeque::new();
    assert_eq!(enqueue_tts_segment(&mut q, segment("ja", 100), 250), 0);
    assert_eq!(enqueue_tts_segment(&mut q, segment("ja", 100), 250), 0);
    assert_eq!(enqueue_tts_segment(&mut q, segment("ja", 100), 250), 1);
    assert_eq!(q.len(), 2);
    assert_eq!(tts_queue_bytes(&q), 200);
    assert_eq!(enqueue_tts_segment(&mut q, segment("ja", 300), 250), 3);
    assert!(q.is_empty());
}

#[test]
fn tts_segment_measures_whole_samples() {
    let s = TtsSegment::with_metadata(4, 1, "ko".to_string(), "t".to_string(), vec![0u8; 88_201], Some(500), "concise");
    assert_eq!(s.byte_len(), 88_200);
    assert_eq!(s.duration_ms(), 1_000);
    assert_eq!(s.expansion_ratio_milli, Some(2_000));
    assert_eq!(s.policy, "concise");
    let n = TtsSegment::new(1, 0, "ko".to_string(), String::new(), vec![1, 2, 3]);
    assert_eq!(n.pcm, vec![1, 2]);
    assert_eq!(n.expansion_ratio_milli, None);
    assert_eq!(n.policy, "normal");
}

#[test]
fn host_audio_buffer_evicts_oldest_chunks_past_the_byte_cap() {
    let mut buf = VecDeque::new();
    assert_eq!(enqueue_host_audio(&mut buf, (1, vec![0u8; 60]), 100), 0);
    assert_eq!(enqueue_host_audio(&mut buf, (2, vec![0u8; 30]), 100), 0);
    assert_eq!(enqueue_host_audio(&mut buf, (3, vec![0u8; 30]), 100), 1);
    assert_eq!(buf.iter().map(|c| c.0).collect::<Vec<_>>(), vec![2, 3]);
}

#[test]
fn video_buffer_keeps_the_newest_chunks() {
    let mut buf = VecDeque::new();
    for ts in 0..5u64 {
        enqueue_video_chunk(&mut buf, (ts, vec![ts as u8]), 3);
    }
    assert_eq!(buf.iter().map(|c| c.0).collect::<Vec<_>>(), vec![2, 3, 4]);
    assert_eq!(enqueue_video_chunk(&mut buf, (9, vec![]), 3), 1);
}

#[test]
fn tts_cap_and_backlog_follow_the_pcm_rate() {
    assert_eq!(tts_queue_cap_bytes(None), TTS_QUEUE_CAP_BYTES);
    assert_eq!(tts_queue_cap_bytes(Some(10)), 88_200);
    assert_eq!(tts_queue_cap_bytes(Some(999_999)), 120 * 88_200);
    assert_eq!(tts_backlog_ms_of(88_200 * 3), 3_000);
    assert_eq!(align_pcm_s16le_len(5), 4);
    assert_eq!(truncate_pcm_s16le(vec![1, 2, 3]), vec![1, 2]);
}

#[test]
fn only_dubbed_streams_of_the_language_play_tts() {
    assert!(stream_plays_tts("ja", false, false, "ja"));
    assert!(!stream_plays_tts("ja", true, false, "ja"));
    assert!(!stream_plays_tts("pass", false, true, "pass"));
    assert!(!stream_plays_tts("ko", false, false, "ja"));
}

#[test]
fn x264_caps_fps_at_thirty() {
    let caps = VideoProfileCaps::new(1920, 1080, 60);
    assert_eq!(effective_video_profile_caps(VideoEncoderKind::X264, caps).max_fps, 30);
    assert_eq!(effective_video_profile_caps(VideoEncoderKind::Nvenc, caps).max_fps, 60);
}

#[test]
fn supervisor_kills_idle_children_and_restarts_crashes() {
    assert!(!should_kill_idle(false, 0, 100_000));
    assert!(!should_kill_idle(true, 1_000, 100_000));
    assert!(!should_kill_idle(false, 80_000, 100_000));
    assert!(should_kill_idle(false, 75_000, 100_000));
    assert_eq!(crash_decision(true, 0), CrashDecision::Ignore);
    assert_eq!(crash_decision(false, 2), CrashDecision::Restart);
    assert_eq!(crash_decision(false, 3), CrashDecision::GiveUp);
    assert_eq!(crash_detail(Some(9), -1), "ffmpeg signal=9 exit_code=-1");
    assert_eq!(crash_detail(None, 1), "ffmpeg exit_code=1");
}

#[test]
fn stream_files_are_named_after_the_stream() {
    assert_eq!(audio_fifo_path("s-1"), "/tmp/brivva_audio_s-1");
    assert_eq!(subtitle_textfile_path("s-1"), "/tmp/brivva_subtitle_s-1.txt");
    let d = RtmpDestination::new("youtube", "rtmp://x/y");
    assert_eq!(d.platform, "youtube");
    assert_eq!(d.url, "rtmp://x/y");
}

#[test]
fn maybe_downgrade_rtmps_preserves_url_when_flag_is_off_even_for_rtmps() {
    let rewritten = maybe_downgrade_rtmps("rtmps://x/y", false);
    assert_eq!(rewritten, "rtmps://x/y");
}

#[test]
fn maybe_downgrade_rtmps_does_not_rewrite_non_rtmps_schemes_even_with_flag() {
    assert_eq!(maybe_downgrade_rtmps("rtmp://x/y", true), "rtmp://x/y");
    assert_eq!(maybe_downgrade_rtmps("srt://host:9999?x=1", true), "srt://host:9999?x=1");
}

#[test]
fn maybe_downgrade_rtmps_rewrites_rtmps_when_flag_is_on() {
    assert_eq!(maybe_downgrade_rtmps("rtmps://a.rtmps.youtube.com/live2/k", true), "rtmp://a.rtmps.youtube.com/live2/k");
}

#[test]
fn pipeline_config_from_maps_every_broadcast_state_field() {
    let mut state = BroadcastState::new();
    state.soniox_api_key = "sk-s".into();
    state.soniox_ws_url = "wss://s".into();
    state.elevenlabs_api_key = "sk-e".into();
    state.elevenlabs_base_url = "https://e".into();
    state.force_default_voice = true;
    state.force_rtmp_not_rtmps = true;

    let cfg = pipeline_config_from(&state);
    assert_eq!(cfg.soniox_api_key, "sk-s");
    assert_eq!(cfg.soniox_ws_url, "wss://s");
    assert_eq!(cfg.elevenlabs_api_key, "sk-e");
    assert_eq!(cfg.elevenlabs_base_url, "https://e");
    assert!(cfg.force_default_voice);
    assert!(cfg.force_rtmp_not_rtmps);
}

#[test]
fn destination_url_joins_server_and_key() {
    assert_eq!(destination_url("rtmp://x/live//", "k"), "rtmp://x/live/k");
    assert_eq!(destination_url("rtmp://x/live", ""), "rtmp://x/live");
}

#[test]
fn stream_roles_follow_the_language() {
    let pass = resolve_stream_role(PASS_LANG_CODE, &Lang::En);
    assert!(pass.passthrough && pass.is_source);
    let same = resolve_stream_role("en", &Lang::En);
    assert!(!same.passthrough && same.is_source);
    let dubbed = resolve_stream_role("ja", &Lang::En);
    assert!(!dubbed.passthrough && !dubbed.is_source);
    let unknown = resolve_stream_role("th", &Lang::En);
    assert!(!unknown.passthrough && !unknown.is_source);
}

fn argv(items: &[&str]) -> Vec<String> {
    items.iter().map(|s| s.to_string()).collect()
}

#[test]
fn smoke_args_read_files_destinations_and_numbers() {
    let env = vec![("BRIVVA_VIDEO_MAX_FPS".to_string(), "60".to_string())];
    let args = parse_smoke_args(
        &argv(&["--mp4", "a.mp4", "--rtmp", "rtmp://x/y", "--duration", "30", "--encoder", "nvenc", "--capture-width", "1280"]),
        &env,
    )
    .unwrap();
    assert_eq!(args.mp4, "a.mp4");
    assert_eq!(args.rtmp.len(), 1);
    assert_eq!(args.rtmp[0].platform, "rtmp");
    assert_eq!(args.rtmp[0].url, "rtmp://x/y");
    assert_eq!(args.duration_secs, 30);
    assert_eq!(args.encoder, VideoEncoderKind::Nvenc);
    assert_eq!(args.max_width, 1920);
    assert_eq!(args.max_fps, 60);
    assert_eq!(args.capture_fps, 60);
    assert_eq!(args.capture_width, 1280);
    assert_eq!(args.subtitle, None);
}

#[test]
fn smoke_args_build_the_youtube_destination_from_the_environment() {
    let env = vec![("MY_KEY".to_string(), "abc".to_string())];
    let args = parse_smoke_args(
        &argv(&["--youtube-url", "rtmp://yt/live2/", "--youtube-key-env", "MY_KEY", "--youtube", "--mp4", "f"]),
        &env,
    )
    .unwrap();
    assert_eq!(args.rtmp[0].platform, "youtube");
    assert_eq!(args.rtmp[0].url, "rtmp://yt/live2/abc");
}

#[test]
fn smoke_args_report_each_error() {
    let env: Vec<(String, String)> = Vec::new();
    assert_eq!(parse_smoke_args(&argv(&["--mp4"]), &env).err().unwrap(), "missing value for --mp4");
    assert_eq!(parse_smoke_args(&argv(&["--duration", "x"]), &env).err().unwrap(), "bad --duration");
    assert_eq!(parse_smoke_args(&argv(&["--max-fps", "-1"]), &env).err().unwrap(), "bad --max-fps");
    assert_eq!(parse_smoke_args(&argv(&["--youtube"]), &env).err().unwrap(), "STREAM_KEY_YOUTUBE env var missing");
    assert_eq!(parse_smoke_args(&argv(&["-h"]), &env).err().unwrap(), usage());
    assert_eq!(
        parse_smoke_args(&argv(&["--bogus"]), &env).err().unwrap(),
        format!("unknown arg: --bogus\n{}", usage())
    );
    assert_eq!(
        parse_smoke_args(&argv(&["--mp4", "f"]), &env).err().unwrap(),
        "provide --youtube or at least one --rtmp <full-url>"
    );
    assert_eq!(parse_smoke_args(&argv(&["--rtmp", "r"]), &env).err().unwrap(), "--mp4 <path> required");
}

#[test]
fn numbers_parse_like_str_parse() {
    assert_eq!(parse_u64("+42"), Some(42));
    assert_eq!(parse_u64("18446744073709551615"), Some(u64::MAX));
    assert_eq!(parse_u64("18446744073709551616"), None);
    assert_eq!(parse_u64(""), None);
    assert_eq!(parse_u64("+"), None);
    assert_eq!(parse_u64(" 1"), None);
    assert_eq!(parse_u32("4294967296"), None);
    assert_eq!(parse_u32("007"), Some(7));
}

#[test]
fn face_crop_takes_the_centred_square() {
    let cropper = FaceCropper::new(256);
    assert_eq!(cropper.face_size(), 256);
    assert_eq!(cropper.crop_region(1920, 1080), CropRegion { x: 420, y: 0, size: 1080 });
    assert_eq!(cropper.crop_region(480, 641), CropRegion { x: 0, y: 80, size: 480 });
}

#[test]
fn stats_record_latencies_in_order() {
    let mut stats = Stats::new();
    stats.record(std::time::Duration::from_millis(5));
    stats.record(std::time::Duration::from_millis(7));
    assert_eq!(stats.latencies(), &vec![std::time::Duration::from_millis(5), std::time::Duration::from_millis(7)]);
}

#[test]
fn translate_cli_languages_and_requests() {
    assert_eq!(parse_language("ja").unwrap(), Language::Japanese);
    assert_eq!(parse_language("fr").err().unwrap(), "Unknown language");
    let req = TranslationRequest { text: "hi".to_string(), source_lang: Language::English, target_lang: Language::Korean };
    assert_eq!(req.describe(), "text: hi, source: en, target: ko");
    assert_eq!(Language::Chinese.to_string(), "zh");
}

#[test]
fn session_log_ships_only_enabled_sessions_and_redacts_secrets() {
    let quiet = SessionLogEmitter::new(true, false, Some("s1".to_string()), "L1".to_string());
    assert!(!quiet.verbose());
    assert_eq!(quiet.shipping_target(LogLevel::Info), Some(("s1".to_string(), "L1".to_string())));
    assert_eq!(quiet.shipping_target(LogLevel::Debug), None);
    let off = SessionLogEmitter::new(false, true, Some("s1".to_string()), "L1".to_string());
    assert_eq!(off.shipping_target(LogLevel::Warn), None);
    let anonymous = SessionLogEmitter::new(true, true, None, "L1".to_string());
    assert_eq!(anonymous.shipping_target(LogLevel::Info), None);
    assert_eq!(LogLevel::Warn.as_str(), "warn");
    assert!(is_secret_key("API_KEY"));
    assert!(is_secret_key("rtmpUrl"));
    assert!(!is_secret_key("lang"));
}

#[test]
fn drain_states_count_what_they_drop_and_write() {
    let mut video = VideoDrainState::new();
    assert!(video.need_keyframe);
    video.record_write();
    assert_eq!(video.chunk_count, 1);

    let mut audio = AudioDrainState::new(DEFAULT_AUDIO_MAX_READY_TICKS);
    let mut host: VecDeque<(u64, Vec<u8>)> = VecDeque::new();
    host.push_back((0, vec![1u8; 100]));
    let tick = audio.begin_tick(&mut host, 1_000, 100, 3_000);
    assert_eq!(tick.host_chunk.len(), AUDIO_BYTES_PER_TICK);
    assert_eq!(tick.host_requeue, vec![1u8; 100]);
    assert_eq!(audio.tick_count, 1);

    let mut tts: VecDeque<u8> = VecDeque::from(vec![0u8; 10]);
    assert!(audio.end_tick(FifoWrite::Backpressured { would_blocks: 2 }, tick.host_requeue, &mut tts, 4));
    assert_eq!(audio.ready_host, vec![1u8; 100]);
    assert_eq!(audio.fifo_skipped_ticks, 1);
    assert_eq!(tts.len(), 10);
    assert!(audio.end_tick(FifoWrite::Written { would_blocks: 0 }, Vec::new(), &mut tts, 4));
    assert_eq!(tts.len(), 6);
    assert!(!audio.end_tick(FifoWrite::Stopped, Vec::new(), &mut tts, 0));
}

#[test]
fn audio_tick_drops_stale_chunks_takes_due_audio_and_caps_the_ready_buffer() {
    // One tick of ready budget; chunks captured at 0, 1_050, 1_950 and 2_500 ms.
    let mut audio = AudioDrainState::new(1);
    let mut host: VecDeque<(u64, Vec<u8>)> = VecDeque::new();
    host.push_back((0, vec![1u8; 10]));
    host.push_back((1_050, vec![2u8; 1000]));
    host.push_back((1_950, vec![3u8; 1000]));
    host.push_back((2_500, vec![4u8; 10]));
    // now 2_100, delay 100, live window 1_000 ms: the chunk at 0 is stale,
    // the chunks at 1_050 and 1_950 are due, the one at 2_500 waits.
    let tick = audio.begin_tick(&mut host, 2_100, 100, 1_000);
    assert_eq!(tick.host_dropped, 1);
    assert_eq!(host.len(), 1);
    assert_eq!(host[0].0, 2_500);
    // 2_000 ready bytes against a 1_764-byte budget: the oldest 236 go.
    assert_eq!(tick.ready_dropped, 2_000 - AUDIO_BYTES_PER_TICK);
    let mut expected = vec![2u8; 1000 - (2_000 - AUDIO_BYTES_PER_TICK)];
    expected.extend(vec![3u8; 1000]);
    assert_eq!(tick.host_chunk, expected);
    assert_eq!(tick.host_requeue, expected);
    assert!(audio.ready_host.is_empty());
    assert_eq!(audio.host_stale_chunks_dropped, 1);
    assert_eq!(audio.ready_host_bytes_dropped, (2_000 - AUDIO_BYTES_PER_TICK) as u64);
}
