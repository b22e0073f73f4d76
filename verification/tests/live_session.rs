use brivva::config::{DEFAULT_BROADCAST_DELAY_MS, DEFAULT_TTS_MODEL, DEFAULT_TTS_PROVIDER};
use brivva::lang::Lang;
use brivva::live_session::{Session, CB_FAILURE_THRESHOLD};
use brivva::orphan::{is_stale_media_file, orphan_pids};
use brivva::settings::{
    choose_subtitle_fontfile, debug_video_clock_enabled, font_candidate_paths, MetricsReportOutcome,
    MetricsReporterState,
};
use brivva::text::parse_i32;
use brivva::config::DASHSCOPE_TTS_MODEL_VC;
use brivva::messages::ServerMsg;
use brivva::pipeline_health::{health_message, read_counters};
use brivva::session::{
    parse_target_langs, plan_rtmp_destination, resolve_tts_api_key, resolve_tts_model, rtmp_lang_of, PASS_LANG_CODE,
};
use std::collections::HashMap;

fn make_session() -> Session {
    Session::new("sess-1".to_string(), Lang::En, vec![Lang::Ja, Lang::Zh], 2)
}

#[test]
fn should_set_id_source_and_targets_from_constructor() {
    let session = make_session();

    assert_eq!(session.id, "sess-1");
    assert_eq!(session.source_lang, Lang::En);
    assert_eq!(session.target_langs, vec![Lang::Ja, Lang::Zh]);
    assert_eq!(session.tier, 2);
}

#[test]
fn should_default_tts_model_to_constant() {
    let session = make_session();

    assert_eq!(session.tts_model, DEFAULT_TTS_MODEL);
}

#[test]
fn should_default_broadcast_delay_to_constant() {
    let session = make_session();

    assert_eq!(session.broadcast_delay_ms, DEFAULT_BROADCAST_DELAY_MS);
}

#[test]
fn should_default_voice_clone_id_to_none() {
    let session = make_session();

    assert!(session.voice_clone_id.is_none());
}

#[test]
fn should_default_video_codec_to_none() {
    let session = make_session();

    assert!(session.video_codec.is_none());
}

#[test]
fn should_default_rtmp_langs_to_empty() {
    let session = make_session();

    assert!(session.rtmp_langs.is_empty());
}

#[test]
fn should_default_rtmp_stop_to_false() {
    let session = make_session();

    assert!(!session.rtmp_stop);
}

#[test]
fn should_return_only_target_langs_when_no_rtmp_langs() {
    let session = make_session();

    let active = session.active_langs();

    assert_eq!(active, vec![Lang::Ja, Lang::Zh]);
}

#[test]
fn should_not_duplicate_langs_when_rtmp_overlaps_target() {
    let mut session = make_session();
    session.rtmp_langs = vec![Lang::Ja];

    let active = session.active_langs();

    assert_eq!(active, vec![Lang::Ja, Lang::Zh]);
}

#[test]
fn should_append_new_rtmp_langs_not_in_target() {
    let mut session = make_session();
    session.rtmp_langs = vec![Lang::Ko];

    let active = session.active_langs();

    assert_eq!(active, vec![Lang::Ja, Lang::Zh, Lang::Ko]);
}

#[test]
fn should_merge_overlapping_and_new_rtmp_langs() {
    let mut session = make_session();
    session.rtmp_langs = vec![Lang::Ja, Lang::Ko];

    let active = session.active_langs();

    assert_eq!(active, vec![Lang::Ja, Lang::Zh, Lang::Ko]);
}

#[test]
fn should_return_empty_when_both_target_and_rtmp_langs_are_empty() {
    let session = Session::new("sess-empty".to_string(), Lang::En, vec![], 1);

    let active = session.active_langs();

    assert!(active.is_empty());
}

#[test]
fn should_return_rtmp_langs_when_target_langs_are_empty() {
    let mut session = Session::new("sess-rtmp-only".to_string(), Lang::En, vec![], 1);
    session.rtmp_langs = vec![Lang::Ko, Lang::Zh];

    let active = session.active_langs();

    assert_eq!(active, vec![Lang::Ko, Lang::Zh]);
}

#[test]
fn should_not_duplicate_when_rtmp_langs_fully_overlap_target_langs() {
    let mut session = make_session();
    session.rtmp_langs = vec![Lang::Ja, Lang::Zh];

    let active = session.active_langs();

    assert_eq!(active, vec![Lang::Ja, Lang::Zh]);
}

#[test]
fn new_session_has_default_voice_provider_and_closed_breakers() {
    let mut session = make_session();

    assert_eq!(session.tts_voice_gender, "female");
    assert_eq!(session.tts_provider, DEFAULT_TTS_PROVIDER);
    assert!(session.use_default_voice_langs.is_empty());
    assert!(session.voice_gender_map.is_empty());
    assert!(session.lang_delay_ms.is_empty());
    assert_eq!(session.tts_circuit_breaker.state_name(), "closed");
    assert_eq!(session.stt_circuit_breaker.state_name(), "closed");
    for _ in 1..CB_FAILURE_THRESHOLD {
        session.tts_circuit_breaker.record_failure();
    }
    assert!(!session.tts_circuit_breaker.is_open());
    session.tts_circuit_breaker.record_failure();
    assert!(session.tts_circuit_breaker.is_open());
}

#[test]
fn active_langs_drop_repeated_rtmp_langs() {
    let mut session = Session::new("s".to_string(), Lang::En, vec![Lang::Ja], 1);
    session.rtmp_langs = vec![Lang::Ko, Lang::Ko, Lang::Ja, Lang::Ru];

    assert_eq!(session.active_langs(), vec![Lang::Ja, Lang::Ko, Lang::Ru]);
}

#[test]
fn orphan_pids_skip_own_pid_and_junk_lines() {
    let pids = orphan_pids("123\n  456 \nabc\n789\n\n", 456);

    assert_eq!(pids, vec![123, 789]);
}

#[test]
fn orphan_pids_of_empty_output_is_empty() {
    assert!(orphan_pids("", 1).is_empty());
}

#[test]
fn orphan_pids_read_last_line_without_newline() {
    assert_eq!(orphan_pids("10\n-20", 0), vec![10, -20]);
}

#[test]
fn stale_media_files_are_the_brivva_fifos() {
    assert!(is_stale_media_file("brivva_audio_ja_1.fifo"));
    assert!(is_stale_media_file("brivva_video_zh"));
    assert!(!is_stale_media_file("brivva_audi"));
    assert!(!is_stale_media_file("other_brivva_audio_"));
}

#[test]
fn parse_i32_matches_std() {
    for s in ["0", "42", "-42", "+7", "-2147483648", "2147483647", "2147483648", "-2147483649", "-", "+", "", "-+1", " 1", "1a"] {
        assert_eq!(parse_i32(s), s.parse::<i32>().ok(), "input {:?}", s);
    }
}

#[test]
fn debug_video_clock_reads_truthy_values() {
    assert!(debug_video_clock_enabled(Some(" TRUE ")));
    assert!(debug_video_clock_enabled(Some("1")));
    assert!(debug_video_clock_enabled(Some("On")));
    assert!(debug_video_clock_enabled(Some("yes")));
    assert!(!debug_video_clock_enabled(Some("0")));
    assert!(!debug_video_clock_enabled(Some("enabled")));
    assert!(!debug_video_clock_enabled(None));
}

#[test]
fn subtitle_font_prefers_setting_then_first_existing_candidate() {
    let candidates = font_candidate_paths();
    assert_eq!(candidates.len(), 4);

    assert_eq!(choose_subtitle_fontfile(Some("/fonts/x.ttf"), &[true, true, true, true]), "/fonts/x.ttf");
    assert_eq!(choose_subtitle_fontfile(Some("   "), &[false, false, true, false]), candidates[2]);
    assert_eq!(choose_subtitle_fontfile(None, &[false, true]), candidates[1]);
    assert_eq!(choose_subtitle_fontfile(None, &[false, false, false, true]), candidates[3]);
    assert_eq!(
        choose_subtitle_fontfile(None, &[]),
        "/usr/share/fonts/opentype/noto/NotoSansCJK-Regular.ttc"
    );
}

#[test]
fn metrics_reporter_retires_after_two_not_found_in_a_row() {
    let mut r = MetricsReporterState::new();
    assert!(r.after_report(MetricsReportOutcome::NotFound));
    assert!(r.after_report(MetricsReportOutcome::Failed));
    assert!(!r.after_report(MetricsReportOutcome::NotFound));

    let mut r = MetricsReporterState::new();
    assert!(r.after_report(MetricsReportOutcome::NotFound));
    assert!(r.after_report(MetricsReportOutcome::Delivered));
    assert!(r.after_report(MetricsReportOutcome::NotFound));
    assert_eq!(r.consecutive_not_found, 1);
}

#[test]
fn target_langs_parse_trimmed_codes_and_skip_unknown() {
    assert_eq!(parse_target_langs("ja, zh ,xx,ko"), vec![Lang::Ja, Lang::Zh, Lang::Ko]);
    assert_eq!(parse_target_langs(""), Vec::<Lang>::new());
    assert_eq!(parse_target_langs("en,,ru,"), vec![Lang::En, Lang::Ru]);
    assert_eq!(parse_target_langs("JA"), Vec::<Lang>::new());
}

#[test]
fn tts_model_follows_provider_then_requested_model() {
    assert_eq!(resolve_tts_model("flash", "dashscope"), DASHSCOPE_TTS_MODEL_VC);
    assert_eq!(resolve_tts_model("flash", "elevenlabs"), "eleven_flash_v2_5");
    assert_eq!(resolve_tts_model("turbo", "elevenlabs"), DEFAULT_TTS_MODEL);
    assert_eq!(resolve_tts_model("", ""), DEFAULT_TTS_MODEL);
}

#[test]
fn tts_api_key_follows_provider() {
    assert_eq!(resolve_tts_api_key("dashscope", "el-key", "ds-key"), "ds-key");
    assert_eq!(resolve_tts_api_key("elevenlabs", "el-key", "ds-key"), "el-key");
    assert_eq!(resolve_tts_api_key("other", "el-key", "ds-key"), "el-key");
}

#[test]
fn health_report_sums_failures_and_timeouts_as_dropped_chunks() {

    let mut session = make_session();
    session.pipeline_counters.increment_tts_failures();
    session.pipeline_counters.increment_tts_failures();
    session.pipeline_counters.increment_tts_timeouts();
    session.pipeline_counters.increment_translation_empty();
    session.latency_tracker.record(100);
    session.latency_tracker.record(300);

    let c = read_counters(Some(&session));
    assert_eq!((c.tts_failures, c.tts_timeouts, c.translation_empty, c.avg_latency_ms), (2, 1, 1, 200));

    let mut depth = HashMap::new();
    depth.insert("ja".to_string(), 3usize);
    match health_message(true, depth, &c) {
        ServerMsg::PipelineHealth { stt_connected, queue_depth, dropped_chunks, tts_timeouts, translate_errors } => {
            assert!(stt_connected);
            assert_eq!(queue_depth.get("ja"), Some(&3));
            assert_eq!((dropped_chunks, tts_timeouts, translate_errors), (3, 1, 1));
        }
        other => panic!("unexpected {:?}", other),
    }

    let z = read_counters(None);
    assert_eq!((z.tts_failures, z.tts_timeouts, z.stt_disconnects, z.translation_empty, z.avg_latency_ms), (0, 0, 0, 0, 0));
}

#[test]
fn rtmp_destinations_need_url_and_key_and_honour_the_kill_switch() {
    let (url, role) = plan_rtmp_destination(Some("rtmps://a.rtmp.youtube.com/live2/"), Some("key-1"), "ja", &Lang::En, true)
        .expect("planned");
    assert_eq!(url, "rtmp://a.rtmp.youtube.com/live2/key-1");
    assert!(!role.is_source && !role.passthrough);
    assert_eq!(rtmp_lang_of("ja", role), Some(Lang::Ja));

    let (url, role) = plan_rtmp_destination(Some("rtmps://x/app"), Some(""), PASS_LANG_CODE, &Lang::En, false).expect("planned");
    assert_eq!(url, "rtmps://x/app");
    assert!(role.is_source && role.passthrough);
    assert_eq!(rtmp_lang_of(PASS_LANG_CODE, role), None);

    let (_, role) = plan_rtmp_destination(Some("rtmp://x"), Some("k"), "en", &Lang::En, false).expect("planned");
    assert!(role.is_source && !role.passthrough);
    assert_eq!(rtmp_lang_of("en", role), Some(Lang::En));
    assert_eq!(rtmp_lang_of("th", role), None);

    assert!(plan_rtmp_destination(None, Some("k"), "ja", &Lang::En, false).is_none());
    assert!(plan_rtmp_destination(Some("rtmp://x"), None, "ja", &Lang::En, false).is_none());
}
