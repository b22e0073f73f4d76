use brivva::lang::Lang;
use brivva::soniox::{
    is_soniox_endpoint_token, SonioxMode, SonioxResponse, SonioxToken, HOST_SAMPLE_RATE, SONIOX_END_TOKEN,
    SONIOX_MODEL,
};
use brivva::stt::{
    accumulate_tokens, dedupe_target_langs, flush_reason, pcm_s16le_mono_duration_ms, SourceTimingMethod,
    UtteranceTimingAccumulator, STT_RECONNECT_DELAY_MS, STT_RECONNECT_MAX,
};
use brivva::stt_session::{
    connect_attempts, connect_retry_delay_ms, finalize_utterance, flag_enabled, force_finalize_ms_from_setting,
    frame_disposition, interim_transcript, lookahead_window_ms, FinalizeClock, FrameDisposition, SttLoopAction,
    SttReconnectLoop,
};

fn token(text: &str, is_final: bool, translation_status: Option<&str>) -> SonioxToken {
    SonioxToken {
        text: text.to_string(),
        start_ms: None,
        end_ms: None,
        is_final,
        translation_status: translation_status.map(str::to_string),
    }
}

fn timed_token(text: &str, is_final: bool, translation_status: Option<&str>, start_ms: u64, end_ms: u64) -> SonioxToken {
    SonioxToken {
        text: text.to_string(),
        start_ms: Some(start_ms),
        end_ms: Some(end_ms),
        is_final,
        translation_status: translation_status.map(str::to_string),
    }
}

fn translate(source_lang: Lang, target_lang: Lang) -> SonioxMode {
    SonioxMode::Translate { source_lang, target_lang, terms: Vec::new() }
}

#[test]
fn source_mode_accepts_any_token_regardless_of_translation_status() {
    let mode = SonioxMode::Source { lang: Lang::En };
    assert!(mode.accepts(&token("hello", false, None)));
    assert!(mode.accepts(&token("world", false, Some("original"))));
    assert!(mode.accepts(&token("x", false, Some("translation"))));
}

#[test]
fn translate_mode_accepts_only_tokens_tagged_translation() {
    let mode = translate(Lang::En, Lang::Ja);
    assert!(mode.accepts(&token("konnichiwa", false, Some("translation"))));
    assert!(!mode.accepts(&token("hello", false, Some("original"))));
    assert!(!mode.accepts(&token("x", false, None)));
}

#[test]
fn end_token_always_accepted_even_when_translation_tag_missing() {
    let translate = translate(Lang::En, Lang::Ko);
    let source = SonioxMode::Source { lang: Lang::En };

    let end_token = token(SONIOX_END_TOKEN, false, None);
    assert!(translate.accepts(&end_token));
    assert!(source.accepts(&end_token));
}

#[test]
fn source_config_has_no_translation_block() {
    let mode = SonioxMode::Source { lang: Lang::Ja };
    let config = mode.build_config("api-key");
    assert_eq!(config.api_key, "api-key");
    assert_eq!(config.model, SONIOX_MODEL);
    assert_eq!(config.audio_format, "pcm_s16le");
    assert_eq!(config.sample_rate, HOST_SAMPLE_RATE);
    assert_eq!(config.num_channels, 1);
    assert_eq!(config.language_hints, vec!["ja".to_string()]);
    assert!(config.enable_endpoint_detection);
    assert_eq!(config.max_endpoint_delay_ms, Some(500));
    assert!(config.context.is_none());
    assert!(config.translation.is_none());
}

#[test]
fn translate_config_hints_source_lang_and_targets_target() {
    let mode = translate(Lang::En, Lang::Zh);
    let config = mode.build_config("k");

    assert_eq!(config.language_hints, vec!["en".to_string()]);
    let translation = config.translation.expect("translate mode has block");
    assert_eq!(translation.kind, "one_way");
    assert_eq!(translation.target_language, "zh");
    let context = config.context.expect("translate mode has context");
    let instructions = context.general.iter().find(|item| item.key == "instructions").expect("has instructions");
    assert!(instructions.value.contains("natural spoken"));
    assert!(instructions.value.contains("Do not summarize"));
}

#[test]
fn translate_config_includes_host_translation_terms_when_present() {
    let mode = SonioxMode::Translate {
        source_lang: Lang::Ko,
        target_lang: Lang::Ja,
        terms: vec!["Brivva Pro serum".into(), "SUMMER20".into()],
    };
    let config = mode.build_config("k");
    let context = config.context.expect("translate mode has context");
    let terms = context.general.iter().find(|item| item.key == "translation_terms").expect("has host terms");
    assert_eq!(terms.value, "Brivva Pro serum, SUMMER20");
}

#[test]
fn translate_config_without_terms_has_no_terms_item() {
    let config = translate(Lang::Ko, Lang::Ja).build_config("k");
    let context = config.context.expect("context");
    assert_eq!(context.general.len(), 3);
    assert!(context.general.iter().all(|item| item.key != "translation_terms"));
    assert_eq!(context.general[0].value, "live commerce");
}

#[test]
fn translate_tag_uses_arrow() {
    let mode = translate(Lang::En, Lang::Ja);
    assert_eq!(mode.tag(), "en→ja");
}

#[test]
fn source_tag_uses_src_prefix() {
    let mode = SonioxMode::Source { lang: Lang::Ko };
    assert_eq!(mode.tag(), "src:ko");
}

#[test]
fn target_lang_string_only_for_translation() {
    assert_eq!(SonioxMode::Source { lang: Lang::Ko }.target_lang_string(), None);
    assert_eq!(translate(Lang::En, Lang::Ru).target_lang_string(), Some("ru".to_string()));
}

#[test]
fn endpoint_tokens_are_end_and_fin() {
    assert!(is_soniox_endpoint_token("<end>"));
    assert!(is_soniox_endpoint_token("<fin>"));
    assert!(!is_soniox_endpoint_token("end"));
}

#[test]
fn token_timing_needs_both_ends_in_order() {
    assert_eq!(timed_token("a", true, None, 10, 20).timing_ms(), Some((10, 20)));
    assert_eq!(timed_token("a", true, None, 20, 10).timing_ms(), None);
    assert_eq!(token("a", true, None).timing_ms(), None);
}

#[test]
fn dedupe_drops_source_lang_from_targets() {
    let targets = dedupe_target_langs(Lang::En, vec![Lang::En, Lang::Ja, Lang::Ko]);
    assert_eq!(targets, vec![Lang::Ja, Lang::Ko]);
}

#[test]
fn dedupe_collapses_duplicates_preserving_first_seen_order() {
    let targets = dedupe_target_langs(Lang::En, vec![Lang::Ja, Lang::Ko, Lang::Ja, Lang::Zh, Lang::Ko]);
    assert_eq!(targets, vec![Lang::Ja, Lang::Ko, Lang::Zh]);
}

#[test]
fn dedupe_returns_empty_when_all_targets_match_source() {
    let targets = dedupe_target_langs(Lang::Ja, vec![Lang::Ja, Lang::Ja]);
    assert!(targets.is_empty());
}

#[test]
fn dedupe_handles_empty_input() {
    assert!(dedupe_target_langs(Lang::En, vec![]).is_empty());
}

#[test]
fn dedupe_keeps_all_entries_when_none_match_source() {
    let targets = dedupe_target_langs(Lang::En, vec![Lang::Ja, Lang::Ko, Lang::Zh]);
    assert_eq!(targets, vec![Lang::Ja, Lang::Ko, Lang::Zh]);
}

#[test]
fn accumulate_source_mode_joins_final_tokens_and_returns_interim_tail() {
    let mode = SonioxMode::Source { lang: Lang::En };
    let response = SonioxResponse {
        tokens: vec![token("hello ", true, None), token("world", true, None), token(" so", false, None)],
        error_code: None,
        error_message: None,
    };
    let mut final_text = String::new();
    let mut timing = UtteranceTimingAccumulator::default();
    let (interim, endpoint) = accumulate_tokens(&mode, &response, &mut final_text, &mut timing);

    assert_eq!(final_text, "hello world");
    assert_eq!(interim, " so");
    assert!(!endpoint);
}

#[test]
fn accumulate_flags_endpoint_on_end_token_and_skips_its_text() {
    let mode = SonioxMode::Source { lang: Lang::En };
    let response = SonioxResponse {
        tokens: vec![token("done ", true, None), token(SONIOX_END_TOKEN, true, None)],
        error_code: None,
        error_message: None,
    };
    let mut final_text = String::new();
    let mut timing = UtteranceTimingAccumulator::default();
    let (_, endpoint) = accumulate_tokens(&mode, &response, &mut final_text, &mut timing);

    assert_eq!(final_text, "done ");
    assert!(endpoint);
}

#[test]
fn accumulate_translate_mode_drops_tokens_without_translation_status() {
    let mode = translate(Lang::En, Lang::Ja);
    let response = SonioxResponse {
        tokens: vec![
            token("original ", true, Some("original")),
            token("konnichiwa", true, Some("translation")),
            token(" yo", false, Some("translation")),
        ],
        error_code: None,
        error_message: None,
    };
    let mut final_text = String::new();
    let mut timing = UtteranceTimingAccumulator::default();
    let (interim, _) = accumulate_tokens(&mode, &response, &mut final_text, &mut timing);

    assert_eq!(final_text, "konnichiwa");
    assert_eq!(interim, " yo");
}

#[test]
fn accumulate_translate_mode_captures_source_token_timing() {
    let mode = translate(Lang::En, Lang::Ja);
    let response = SonioxResponse {
        tokens: vec![
            timed_token("hello ", true, Some("original"), 1_000, 1_400),
            timed_token("world", true, Some("original"), 1_450, 2_200),
            token("こんにちは", true, Some("translation")),
        ],
        error_code: None,
        error_message: None,
    };
    let mut final_text = String::new();
    let mut timing = UtteranceTimingAccumulator::default();

    accumulate_tokens(&mode, &response, &mut final_text, &mut timing);
    let source_timing = timing.finish().expect("source timing");

    assert_eq!(final_text, "こんにちは");
    assert_eq!(source_timing.source_speech_duration_ms, 1_200);
    assert_eq!(source_timing.tts_budget_ms(), 1_200);
    assert_eq!(source_timing.timing_method, SourceTimingMethod::SonioxTokenTimestamps);
}

#[test]
fn accumulate_translate_mode_falls_back_to_response_wall_clock_without_timestamps() {
    let mode = translate(Lang::En, Lang::Ja);
    let response = SonioxResponse {
        tokens: vec![token("こんにちは", true, Some("translation"))],
        error_code: None,
        error_message: None,
    };
    let mut final_text = String::new();
    let mut timing = UtteranceTimingAccumulator::default();

    accumulate_tokens(&mode, &response, &mut final_text, &mut timing);
    let source_timing = timing.finish().expect("fallback timing");

    assert_eq!(final_text, "こんにちは");
    assert_eq!(source_timing.source_speech_duration_ms, 500);
    assert_eq!(source_timing.tts_budget_ms(), 500);
    assert_eq!(source_timing.timing_method, SourceTimingMethod::ResponseWallClock);
}

#[test]
fn timing_accumulator_resets_after_finish() {
    let mut timing = UtteranceTimingAccumulator::default();
    timing.observe_source_timing(1_000, 2_000);
    assert!(timing.finish().is_some());
    assert!(timing.finish().is_none());
}

#[test]
fn accumulate_preserves_prior_final_text_across_calls() {
    let mode = SonioxMode::Source { lang: Lang::En };
    let mut final_text = "prefix ".to_string();
    let response = SonioxResponse { tokens: vec![token("added", true, None)], error_code: None, error_message: None };
    let mut timing = UtteranceTimingAccumulator::default();
    accumulate_tokens(&mode, &response, &mut final_text, &mut timing);

    assert_eq!(final_text, "prefix added");
}

#[test]
fn timing_span_is_clamped_between_half_a_second_and_fifteen_seconds() {
    let mut short = UtteranceTimingAccumulator::new();
    short.observe_source_timing(1_000, 1_100);
    assert_eq!(short.finish().unwrap().source_speech_duration_ms, 500);

    let mut long = UtteranceTimingAccumulator::new();
    long.observe_source_timing(0, 40_000);
    assert_eq!(long.finish().unwrap().available_window_ms, 15_000);

    let mut widened = UtteranceTimingAccumulator::new();
    widened.observe_source_timing(5_000, 6_000);
    widened.observe_source_timing(2_000, 3_000);
    assert_eq!(widened.source_start_ms(), Some(2_000));
    assert_eq!(widened.finish_with_elapsed(None).unwrap().source_speech_duration_ms, 4_000);
}

#[test]
fn finish_with_elapsed_falls_back_only_without_timestamps() {
    let mut t = UtteranceTimingAccumulator::new();
    assert!(t.finish_with_elapsed(None).is_none());
    let timing = t.finish_with_elapsed(Some(2_345)).unwrap();
    assert_eq!(timing.source_speech_duration_ms, 2_345);
    assert_eq!(timing.timing_method, SourceTimingMethod::ResponseWallClock);
}

#[test]
fn flush_reason_returns_endpoint_when_soniox_end_token_fired() {
    assert_eq!(flush_reason(true, ""), Some("endpoint"));
    assert_eq!(flush_reason(true, &"a".repeat(500)), Some("endpoint"));
}

#[test]
fn flush_reason_returns_none_for_text_shorter_than_min_chars() {
    assert_eq!(flush_reason(false, ""), None);
    assert_eq!(flush_reason(false, "Hi."), None);
    assert_eq!(flush_reason(false, &"a".repeat(29)), None);
}

#[test]
fn flush_reason_returns_length_when_text_exceeds_hard_ceiling() {
    assert_eq!(flush_reason(false, &"a".repeat(100)), Some("length"));
    assert_eq!(flush_reason(false, &"b".repeat(500)), Some("length"));
}

#[test]
fn flush_reason_returns_sentence_count_after_three_sentences() {
    let text = "One good deal. Two left now. Three sold fast.";
    assert!(text.chars().count() >= 30);
    assert_eq!(flush_reason(false, text), Some("sentence_count"));
}

#[test]
fn flush_reason_returns_punctuation_when_final_char_is_sentence_end() {
    let text = "This is a long enough sentence.";
    assert!(text.chars().count() >= 30);
    assert_eq!(flush_reason(false, text), Some("punctuation"));
}

#[test]
fn flush_reason_handles_cjk_sentence_enders() {
    let ko_base: String = "가".repeat(35);
    let ko = format!("{}。", ko_base);
    assert_eq!(flush_reason(false, &ko), Some("punctuation"));
    let zh_base: String = "中".repeat(35);
    let zh = format!("{}？", zh_base);
    assert_eq!(flush_reason(false, &zh), Some("punctuation"));
    let ja_base: String = "あ".repeat(35);
    let ja = format!("{}、", ja_base);
    assert_eq!(flush_reason(false, &ja), Some("punctuation"));
}

#[test]
fn flush_reason_returns_none_when_over_min_but_no_punctuation_and_under_ceiling() {
    let text: String = "x".repeat(40);
    assert_eq!(flush_reason(false, &text), None);
}

#[test]
fn flush_reason_looks_at_the_last_three_characters_only() {
    let near_end = format!("{},ab", "x".repeat(40));
    assert_eq!(flush_reason(false, &near_end), Some("punctuation"));
    let too_far = format!("{},abc", "x".repeat(40));
    assert_eq!(flush_reason(false, &too_far), None);
}

#[test]
fn stt_reconnect_constants_match_documented_values() {
    assert_eq!(STT_RECONNECT_MAX, 5);
    assert_eq!(std::time::Duration::from_millis(STT_RECONNECT_DELAY_MS), std::time::Duration::from_secs(1));
}

#[test]
fn pcm_s16le_mono_duration_uses_44_1k_sample_rate() {
    assert_eq!(pcm_s16le_mono_duration_ms(88_200), 1_000);
    assert_eq!(pcm_s16le_mono_duration_ms(1_764), 20);
}

#[test]
fn pcm_duration_is_at_least_one_millisecond() {
    assert_eq!(pcm_s16le_mono_duration_ms(0), 1);
    assert_eq!(pcm_s16le_mono_duration_ms(10), 1);
}

#[test]
fn reconnect_loop_gives_up_after_the_limit() {
    let mut l = SttReconnectLoop::new();
    assert_eq!(connect_attempts(l.reconnect_count), 10);
    assert_eq!(connect_retry_delay_ms(l.reconnect_count), 3_000);
    for _ in 0..5 {
        assert_eq!(l.after_session(Some((l.utterance_counter + 1, true)), true), SttLoopAction::SleepThenReconnect);
    }
    assert_eq!(l.utterance_counter, 5);
    assert_eq!(connect_attempts(l.reconnect_count), 5);
    assert_eq!(connect_retry_delay_ms(l.reconnect_count), 1_000);
    assert_eq!(l.after_session(None, true), SttLoopAction::Stop);
    assert_eq!(l.reconnect_count, 6);
}

#[test]
fn reconnect_loop_stops_on_clean_end_or_vanished_session() {
    let mut l = SttReconnectLoop::new();
    assert_eq!(l.after_session(Some((3, false)), true), SttLoopAction::Stop);
    assert_eq!(l.utterance_counter, 3);
    assert_eq!(l.reconnect_count, 0);
    assert_eq!(l.after_session(Some((4, true)), false), SttLoopAction::Stop);
    assert_eq!(l.reconnect_count, 0);
    assert_eq!(l.after_config_send_failure(), SttLoopAction::ReconnectNow);
    assert_eq!(l.reconnect_count, 1);
}

#[test]
fn frames_are_skipped_exited_or_processed() {
    assert_eq!(frame_disposition(false, true, true), FrameDisposition::Skip);
    assert_eq!(frame_disposition(true, true, false), FrameDisposition::ExitDisconnected);
    assert_eq!(frame_disposition(true, false, false), FrameDisposition::ExitClean);
    assert_eq!(frame_disposition(true, false, true), FrameDisposition::Process);
}

#[test]
fn finalize_drops_blank_text_and_numbers_the_rest() {
    let mut blank = "  \n ".to_string();
    assert!(finalize_utterance(&mut blank, 7).is_none());
    assert!(blank.is_empty());

    let mut text = " hello ".to_string();
    assert_eq!(finalize_utterance(&mut text, 7), Some((" hello ".to_string(), 8)));
    assert!(text.is_empty());
}

#[test]
fn interim_transcript_is_for_source_sessions_only() {
    let source = SonioxMode::Source { lang: Lang::En };
    assert_eq!(interim_transcript(&source, "hello ", "wor"), Some("hello wor".to_string()));
    assert_eq!(interim_transcript(&source, "", ""), None);
    assert_eq!(interim_transcript(&translate(Lang::En, Lang::Ja), "a", "b"), None);
}

#[test]
fn lookahead_window_needs_a_later_start() {
    assert_eq!(lookahead_window_ms(Some(1_000), Some(3_500)), Some(2_500));
    assert_eq!(lookahead_window_ms(Some(3_500), Some(1_000)), None);
    assert_eq!(lookahead_window_ms(None, Some(1_000)), None);
}

#[test]
fn flags_accept_the_documented_spellings() {
    for on in ["1", "true", "TRUE", "yes", "YES"] {
        assert!(flag_enabled(Some(on)));
    }
    assert!(!flag_enabled(Some("True")));
    assert!(!flag_enabled(None));
}

#[test]
fn finalize_clock_fires_after_the_interval() {
    assert_eq!(force_finalize_ms_from_setting(None), 3_000);
    assert_eq!(force_finalize_ms_from_setting(Some(60_000)), 10_000);
    let mut clock = FinalizeClock::new(force_finalize_ms_from_setting(None));
    assert!(!clock.after_chunk(88_200));
    assert!(!clock.after_chunk(88_200));
    assert!(clock.after_chunk(88_200));
    assert_eq!(clock.audio_since_finalize_ms, 0);

    let mut off = FinalizeClock::new(0);
    assert!(!off.after_chunk(88_200 * 20));
}
